use state_machine::proof_of_existence::{
    Call, Config, Pallet, ALREADY_CLAIMED, CLAIM_NOT_FOUND, NOT_CLAIM_OWNER,
};
use state_machine::support::Dispatch;

struct TestConfig;

impl Config for TestConfig {
    type Content = &'static str;
}

impl state_machine::system::Config for TestConfig {
    type AccountId = &'static str;
    type BlockNumber = u32;
    type Nonce = u32;
}

#[test]
fn basic_proof_of_existence() {
    let mut proof_of_existence = Pallet::<TestConfig>::new();
    assert_eq!(proof_of_existence.get_claim(&"jae"), None);
    assert_eq!(proof_of_existence.create_claim("jae", "claim"), Ok(()));
    assert_eq!(proof_of_existence.create_claim("jun", "token2"), Ok(()));
    assert_eq!(
        proof_of_existence.revoke_claim("jae", "token2"),
        Err("this content belongs someone else")
    );
    assert_eq!(proof_of_existence.revoke_claim("foo", "token3"), Err("claim does not exist"));
}

#[test]
fn claim_changes_hands_by_revoke_and_create() {
    let mut registry = Pallet::<TestConfig>::new();
    assert_eq!(registry.create_claim("jae", "X"), Ok(()));
    assert_eq!(registry.get_claim(&"X"), Some(&"jae"));
    assert_eq!(registry.create_claim("foo", "X"), Err("this content is already claimed"));
    assert_eq!(registry.get_claim(&"X"), Some(&"jae"));
    assert_eq!(registry.revoke_claim("foo", "X"), Err("this content belongs someone else"));
    assert_eq!(registry.get_claim(&"X"), Some(&"jae"));
    assert_eq!(registry.revoke_claim("jae", "X"), Ok(()));
    assert_eq!(registry.get_claim(&"X"), None);
    assert_eq!(registry.create_claim("foo", "X"), Ok(()));
    assert_eq!(registry.get_claim(&"X"), Some(&"foo"));
}

#[test]
fn owner_cannot_claim_twice() {
    let mut registry = Pallet::<TestConfig>::new();
    assert_eq!(registry.create_claim("jae", "X"), Ok(()));
    assert_eq!(registry.create_claim("jae", "X"), Err(ALREADY_CLAIMED));
    assert_eq!(registry.get_claim(&"X"), Some(&"jae"));
}

#[test]
fn revoked_claim_cannot_be_revoked_again() {
    let mut registry = Pallet::<TestConfig>::new();
    assert_eq!(registry.create_claim("jae", "X"), Ok(()));
    assert_eq!(registry.revoke_claim("jae", "X"), Ok(()));
    assert_eq!(registry.revoke_claim("jae", "X"), Err(CLAIM_NOT_FOUND));
}

#[test]
fn one_account_may_own_many_claims() {
    let mut registry = Pallet::<TestConfig>::new();
    assert_eq!(registry.create_claim("jae", "X"), Ok(()));
    assert_eq!(registry.create_claim("jae", "Y"), Ok(()));
    assert_eq!(registry.create_claim("foo", "Z"), Ok(()));
    assert_eq!(registry.revoke_claim("foo", "Y"), Err(NOT_CLAIM_OWNER));
    assert_eq!(registry.revoke_claim("jae", "X"), Ok(()));
    assert_eq!(registry.get_claim(&"X"), None);
    assert_eq!(registry.get_claim(&"Y"), Some(&"jae"));
    assert_eq!(registry.get_claim(&"Z"), Some(&"foo"));
}

#[test]
fn names_are_compared_by_what_they_spell() {
    let mut registry = Pallet::<TestConfig>::new();
    let spelled: &'static str = Box::leak(format!("{}{}", "to", "ken").into_boxed_str());
    assert_eq!(registry.create_claim("jae", "token"), Ok(()));
    assert_eq!(registry.get_claim(&spelled), Some(&"jae"));
    assert_eq!(registry.create_claim("foo", spelled), Err("this content is already claimed"));
    assert_eq!(registry.get_claim(&"toke"), None);
    assert_eq!(registry.get_claim(&"tokens"), None);
}

#[test]
fn dispatch_routes_claims() {
    let mut registry = Pallet::<TestConfig>::new();
    assert_eq!(registry.dispatch("jae", Call::CreateClaim { claim: "X" }), Ok(()));
    assert_eq!(registry.get_claim(&"X"), Some(&"jae"));
    assert_eq!(
        registry.dispatch("foo", Call::CreateClaim { claim: "X" }),
        Err("this content is already claimed")
    );
    assert_eq!(
        registry.dispatch("foo", Call::RevokeClaim { claim: "X" }),
        Err("this content belongs someone else")
    );
    assert_eq!(
        registry.dispatch("foo", Call::RevokeClaim { claim: "Y" }),
        Err("claim does not exist")
    );
    assert_eq!(registry.dispatch("jae", Call::RevokeClaim { claim: "X" }), Ok(()));
    assert_eq!(registry.get_claim(&"X"), None);
}
