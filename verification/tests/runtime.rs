use state_machine::runtime::{ExtrinsicFailure, BLOCK_NUMBER_MISMATCH};
use state_machine::support::{Block, Dispatch, Extrinsic, Header};
use state_machine::{balances, proof_of_existence, types, Runtime, RuntimeCall};

fn transfer(from: &str, to: &str, amount: u128) -> types::Extrinsic {
    Extrinsic {
        caller: from.to_string(),
        call: RuntimeCall::Balances(balances::Call::Transfer { to: to.to_string(), amount }),
    }
}

fn create_claim(caller: &str, claim: &'static str) -> types::Extrinsic {
    Extrinsic {
        caller: caller.to_string(),
        call: RuntimeCall::ProofOfExistence(proof_of_existence::Call::CreateClaim { claim }),
    }
}

fn revoke_claim(caller: &str, claim: &'static str) -> types::Extrinsic {
    Extrinsic {
        caller: caller.to_string(),
        call: RuntimeCall::ProofOfExistence(proof_of_existence::Call::RevokeClaim { claim }),
    }
}

fn block(number: u32, extrinsics: Vec<types::Extrinsic>) -> types::Block {
    Block { header: Header { block_number: number }, extrinsics }
}

#[test]
fn genesis_is_empty() {
    let mut runtime = Runtime::new();
    assert_eq!(runtime.system.block_number(), 0);
    assert_eq!(runtime.system.get_nonce(&"jae".to_string()), 1);
    assert_eq!(runtime.balances.balance(&"jae".to_string()), 0);
    assert_eq!(runtime.proof_of_existence.get_claim(&"X"), None);
}

#[test]
fn block_of_two_transfers() {
    let jae = "jae".to_string();
    let mut runtime = Runtime::new();
    runtime.balances.set_balance(&jae, 100);

    let block_1 = block(1, vec![transfer("jae", "foo", 30), transfer("jae", "bar", 20)]);
    assert_eq!(runtime.execute_block(block_1), Ok(vec![]));

    assert_eq!(runtime.balances.balance(&jae), 50);
    assert_eq!(runtime.balances.balance(&"foo".to_string()), 30);
    assert_eq!(runtime.balances.balance(&"bar".to_string()), 20);
    assert_eq!(runtime.system.block_number(), 1);
    assert_eq!(runtime.system.get_nonce(&jae), 2);
}

#[test]
fn block_with_wrong_number_is_refused_whole() {
    let jae = "jae".to_string();
    let mut runtime = Runtime::new();
    runtime.balances.set_balance(&jae, 100);

    let wrong = block(2, vec![transfer("jae", "foo", 30), create_claim("jae", "X")]);
    assert_eq!(runtime.execute_block(wrong), Err("Block numbers don't match"));

    assert_eq!(runtime.balances.balance(&jae), 100);
    assert_eq!(runtime.balances.balance(&"foo".to_string()), 0);
    assert_eq!(runtime.proof_of_existence.get_claim(&"X"), None);
    assert_eq!(runtime.system.get_nonce(&jae), 1);
    runtime.system.inc_nonce(&jae);
    assert_eq!(runtime.system.get_nonce(&jae), 1);
    assert_eq!(runtime.system.block_number(), 1);

    let stale = block(1, vec![transfer("jae", "foo", 30)]);
    assert_eq!(runtime.execute_block(stale), Err(BLOCK_NUMBER_MISMATCH));
    assert_eq!(runtime.system.block_number(), 2);
    assert_eq!(runtime.balances.balance(&jae), 100);

    let next = block(3, vec![transfer("jae", "foo", 30)]);
    assert_eq!(runtime.execute_block(next), Ok(vec![]));
    assert_eq!(runtime.system.block_number(), 3);
    assert_eq!(runtime.balances.balance(&jae), 70);
    assert_eq!(runtime.balances.balance(&"foo".to_string()), 30);
}

#[test]
fn failing_extrinsic_is_reported_and_the_rest_still_run() {
    let jae = "jae".to_string();
    let foo = "foo".to_string();
    let mut runtime = Runtime::new();
    runtime.balances.set_balance(&jae, 10);

    let batch = vec![
        transfer("jae", "foo", 11),
        transfer("jae", "foo", 4),
        create_claim("jae", "X"),
        create_claim("foo", "X"),
        revoke_claim("foo", "X"),
        revoke_claim("foo", "Y"),
        transfer("foo", "jae", 5),
        revoke_claim("jae", "X"),
    ];
    let report = runtime.execute_block(block(1, batch));
    assert_eq!(
        report,
        Ok(vec![
            ExtrinsicFailure { block_number: 1, index: 0, error: "Not enough funds." },
            ExtrinsicFailure { block_number: 1, index: 3, error: "this content is already claimed" },
            ExtrinsicFailure {
                block_number: 1,
                index: 4,
                error: "this content belongs someone else"
            },
            ExtrinsicFailure { block_number: 1, index: 5, error: "claim does not exist" },
            ExtrinsicFailure { block_number: 1, index: 6, error: "Not enough funds." },
        ])
    );
    assert_eq!(runtime.balances.balance(&jae), 6);
    assert_eq!(runtime.balances.balance(&foo), 4);
    assert_eq!(runtime.proof_of_existence.get_claim(&"X"), None);
    assert_eq!(runtime.system.get_nonce(&jae), 4);
    assert_eq!(runtime.system.get_nonce(&foo), 4);
    assert_eq!(runtime.system.block_number(), 1);
}

#[test]
fn overflow_is_reported_with_its_block_number() {
    let mut runtime = Runtime::new();
    runtime.balances.set_balance(&"jae".to_string(), 1);
    runtime.balances.set_balance(&"foo".to_string(), u128::MAX);
    assert_eq!(runtime.execute_block(block(1, vec![])), Ok(vec![]));
    let report = runtime.execute_block(block(2, vec![transfer("jae", "foo", 1)]));
    assert_eq!(
        report,
        Ok(vec![ExtrinsicFailure { block_number: 2, index: 0, error: "Overflow" }])
    );
    assert_eq!(runtime.balances.balance(&"jae".to_string()), 1);
    assert_eq!(runtime.balances.balance(&"foo".to_string()), u128::MAX);
    assert_eq!(runtime.system.get_nonce(&"jae".to_string()), 1);
    assert_eq!(runtime.system.block_number(), 2);
}

#[test]
fn empty_block_only_advances_the_block_number() {
    let mut runtime = Runtime::new();
    assert_eq!(runtime.execute_block(block(1, vec![])), Ok(vec![]));
    assert_eq!(runtime.execute_block(block(2, vec![])), Ok(vec![]));
    assert_eq!(runtime.system.block_number(), 2);
    assert_eq!(runtime.system.get_nonce(&"jae".to_string()), 1);
}

#[test]
fn claims_across_blocks() {
    let mut runtime = Runtime::new();
    let first = block(1, vec![create_claim("jae", "jaeClaim"), create_claim("foo", "fooClaim")]);
    assert_eq!(runtime.execute_block(first), Ok(vec![]));
    let second = block(2, vec![revoke_claim("jae", "randomClaim"), revoke_claim("foo", "fooClaim")]);
    assert_eq!(
        runtime.execute_block(second),
        Ok(vec![ExtrinsicFailure { block_number: 2, index: 0, error: "claim does not exist" }])
    );
    assert_eq!(runtime.proof_of_existence.get_claim(&"jaeClaim"), Some(&"jae".to_string()));
    assert_eq!(runtime.proof_of_existence.get_claim(&"fooClaim"), None);
    assert_eq!(runtime.system.get_nonce(&"jae".to_string()), 2);
    assert_eq!(runtime.system.get_nonce(&"foo".to_string()), 2);
}

#[test]
fn dispatch_leaves_nonces_alone() {
    let jae = "jae".to_string();
    let mut runtime = Runtime::new();
    runtime.balances.set_balance(&jae, 3);
    let call = RuntimeCall::Balances(balances::Call::Transfer { to: "foo".to_string(), amount: 2 });
    assert_eq!(runtime.dispatch(jae.clone(), call), Ok(()));
    let call = RuntimeCall::Balances(balances::Call::Transfer { to: "foo".to_string(), amount: 2 });
    assert_eq!(runtime.dispatch(jae.clone(), call), Err("Not enough funds."));
    let call = RuntimeCall::ProofOfExistence(proof_of_existence::Call::CreateClaim { claim: "X" });
    assert_eq!(runtime.dispatch(jae.clone(), call), Ok(()));
    assert_eq!(runtime.balances.balance(&jae), 1);
    assert_eq!(runtime.balances.balance(&"foo".to_string()), 2);
    assert_eq!(runtime.proof_of_existence.get_claim(&"X"), Some(&jae));
    assert_eq!(runtime.system.get_nonce(&jae), 1);
    runtime.system.inc_nonce(&jae);
    assert_eq!(runtime.system.get_nonce(&jae), 1);
    assert_eq!(runtime.system.block_number(), 0);
}

#[test]
fn blocks_with_room_can_be_executed() {
    let mut runtime = Runtime::new();
    runtime.balances.set_balance(&"jae".to_string(), 100);
    let first = block(1, vec![transfer("jae", "foo", 30), transfer("jae", "bar", 20)]);
    assert!(runtime.can_execute(&first));
    assert_eq!(runtime.execute_block(first), Ok(vec![]));
    let wrong = block(7, vec![transfer("jae", "foo", 30)]);
    assert!(runtime.can_execute(&wrong));
    assert!(runtime.can_execute(&block(2, vec![])));
    assert_eq!(runtime.system.block_number(), 1);
    assert_eq!(runtime.system.get_nonce(&"jae".to_string()), 2);
}

#[test]
fn bystander_keeps_its_balance() {
    let mut runtime = Runtime::new();
    runtime.balances.set_balance(&"jae".to_string(), 100);
    runtime.balances.set_balance(&"bob".to_string(), 9);
    let batch = vec![
        transfer("jae", "foo", 30),
        create_claim("bob", "X"),
        transfer("foo", "bar", 31),
        transfer("foo", "bar", 1),
    ];
    let report = runtime.execute_block(block(1, batch));
    assert_eq!(
        report,
        Ok(vec![ExtrinsicFailure { block_number: 1, index: 2, error: "Not enough funds." }])
    );
    assert_eq!(runtime.balances.balance(&"bob".to_string()), 9);
    assert_eq!(runtime.balances.balance(&"eve".to_string()), 0);
    assert_eq!(runtime.balances.balance(&"jae".to_string()), 70);
    assert_eq!(runtime.balances.balance(&"foo".to_string()), 29);
    assert_eq!(runtime.balances.balance(&"bar".to_string()), 1);
    assert_eq!(runtime.system.get_nonce(&"bob".to_string()), 1);
    assert_eq!(runtime.system.get_nonce(&"foo".to_string()), 2);
}
