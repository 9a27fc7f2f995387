//! The runtime: the three modules side by side, call routing between them,
//! and the execution of blocks.
use crate::balances;
use crate::identity::Identifier;
use crate::proof_of_existence;
use crate::support;
use crate::support::{Dispatch, DispatchResult};
use crate::system;
use crate::system::nonce_of;
use crate::types;
use crate::types::Configuration;
use vstd::prelude::*;

verus! {

/// Why a block is refused when its header does not name the next block.
pub const BLOCK_NUMBER_MISMATCH: &'static str = "Block numbers don't match";

/// Every call the runtime understands, tagged by the module that owns it.
pub enum RuntimeCall {
    Balances(balances::Call<Configuration>),
    ProofOfExistence(proof_of_existence::Call<Configuration>),
}

/// The whole state of the chain.
#[derive(Debug)]
pub struct Runtime {
    pub system: system::Pallet<Configuration>,
    pub balances: balances::Pallet<Configuration>,
    pub proof_of_existence: proof_of_existence::Pallet<Configuration>,
}

/// An extrinsic that was refused: where it stood and why it failed.
#[derive(Debug, Clone, Copy, PartialEq, Eq)]
pub struct ExtrinsicFailure {
    pub block_number: types::BlockNumber,
    pub index: usize,
    pub error: &'static str,
}

/// What a call asks for, over names and numbers.
pub enum Operation {
    Transfer { to: Seq<char>, amount: nat },
    CreateClaim { claim: Seq<char> },
    RevokeClaim { claim: Seq<char> },
}

/// The state of the chain, over names and numbers.
pub struct State {
    /// The number of the latest block.
    pub height: nat,
    /// The nonce of each account that has submitted an extrinsic.
    pub nonces: Map<Seq<char>, nat>,
    /// The balance of each account that has an entry in the ledger.
    pub balances: Map<Seq<char>, nat>,
    /// The owner of each claimed piece of content.
    pub claims: Map<Seq<char>, Seq<char>>,
}

impl View for RuntimeCall {
    type V = Operation;

    open spec fn view(&self) -> Operation {
        match *self {
            RuntimeCall::Balances(balances::Call::Transfer { to, amount }) => Operation::Transfer {
                to: to@,
                amount: amount as nat,
            },
            RuntimeCall::ProofOfExistence(
                proof_of_existence::Call::CreateClaim { claim },
            ) => Operation::CreateClaim { claim: claim@ },
            RuntimeCall::ProofOfExistence(
                proof_of_existence::Call::RevokeClaim { claim },
            ) => Operation::RevokeClaim { claim: claim@ },
        }
    }
}

impl View for Runtime {
    type V = State;

    open spec fn view(&self) -> State {
        State {
            height: self.system.height(),
            nonces: self.system.nonces(),
            balances: self.balances@,
            claims: self.proof_of_existence@,
        }
    }
}

/// The meaning of each extrinsic of a batch, in order.
pub open spec fn submissions(extrinsics: Seq<types::Extrinsic>) -> Seq<(Seq<char>, Operation)> {
    extrinsics.map_values(|e: types::Extrinsic| e@)
}

/// The outcome of `operation` when `caller` asks for it in `state`.
pub open spec fn outcome(state: State, caller: Seq<char>, operation: Operation) -> DispatchResult {
    match operation {
        Operation::Transfer { to, amount } => balances::transfer_outcome(
            state.balances,
            caller,
            to,
            amount,
            u128::MAX as nat,
        ),
        Operation::CreateClaim { claim } => proof_of_existence::create_outcome(state.claims, claim),
        Operation::RevokeClaim { claim } => proof_of_existence::revoke_outcome(
            state.claims,
            caller,
            claim,
        ),
    }
}

/// The state after `caller` has asked for `operation` in `state`.  Only the
/// module that owns the operation changes, and only where the operation
/// succeeds.
pub open spec fn dispatched(state: State, caller: Seq<char>, operation: Operation) -> State {
    match operation {
        Operation::Transfer { to, amount } => if outcome(state, caller, operation) is Ok {
            State { balances: balances::transferred(state.balances, caller, to, amount), ..state }
        } else {
            state
        },
        Operation::CreateClaim { claim } => State {
            claims: proof_of_existence::after_create(state.claims, caller, claim),
            ..state
        },
        Operation::RevokeClaim { claim } => State {
            claims: proof_of_existence::after_revoke(state.claims, caller, claim),
            ..state
        },
    }
}

/// The state as the caller's nonce has been advanced, before the call is
/// dispatched.
pub open spec fn charged(state: State, caller: Seq<char>) -> State {
    State { nonces: state.nonces.insert(caller, nonce_of(state.nonces, caller) + 1), ..state }
}

/// The state after one extrinsic: the caller's nonce advances whether or not
/// the call succeeds, then the call is dispatched.
pub open spec fn applied(state: State, submission: (Seq<char>, Operation)) -> State {
    dispatched(charged(state, submission.0), submission.0, submission.1)
}

/// The state after a batch of extrinsics, applied in order.
pub open spec fn executed(state: State, batch: Seq<(Seq<char>, Operation)>) -> State
    decreases batch.len(),
{
    if batch.len() == 0 {
        state
    } else {
        applied(executed(state, batch.drop_last()), batch.last())
    }
}

/// The failures of a batch of extrinsics applied in order to `state`, as part
/// of block `number`: one entry for each refused extrinsic, in order, with
/// its position in the batch and the reason.
pub open spec fn reported(
    state: State,
    number: types::BlockNumber,
    batch: Seq<(Seq<char>, Operation)>,
) -> Seq<ExtrinsicFailure>
    decreases batch.len(),
{
    if batch.len() == 0 {
        Seq::empty()
    } else {
        let earlier = reported(state, number, batch.drop_last());
        let before = charged(executed(state, batch.drop_last()), batch.last().0);
        match outcome(before, batch.last().0, batch.last().1) {
            Ok(_) => earlier,
            Err(error) => earlier.push(
                (ExtrinsicFailure {
                    block_number: number,
                    index: (batch.len() - 1) as usize,
                    error,
                }),
            ),
        }
    }
}

/// How many extrinsics of the batch `who` has submitted.
pub open spec fn submitted_by(batch: Seq<(Seq<char>, Operation)>, who: Seq<char>) -> nat
    decreases batch.len(),
{
    if batch.len() == 0 {
        0
    } else {
        submitted_by(batch.drop_last(), who) + if batch.last().0 == who {
            1nat
        } else {
            0nat
        }
    }
}

/// Whether every nonce that the batch advances has room to advance: for each
/// caller, the nonce it has plus the number of its extrinsics in the batch
/// fits in a nonce.
pub open spec fn nonces_fit(state: State, batch: Seq<(Seq<char>, Operation)>) -> bool {
    forall|who: Seq<char>|
        0 < #[trigger] submitted_by(batch, who) ==> nonce_of(state.nonces, who) + submitted_by(
            batch,
            who,
        ) <= u32::MAX
}

/// Whether an extrinsic is a transfer that `who` makes or receives.
pub open spec fn moves_funds_of(submission: (Seq<char>, Operation), who: Seq<char>) -> bool {
    submission.1 matches Operation::Transfer { to, .. } && (submission.0 == who || to == who)
}

/// The state as block `state.height + 1` begins.
pub open spec fn advanced(state: State) -> State {
    State { height: state.height + 1, ..state }
}

impl Runtime {
    /// The state at genesis: block zero, no nonces, no balances, no claims.
    pub fn new() -> (r: Self)
        ensures
            r@ == (State {
                height: 0,
                nonces: Map::empty(),
                balances: Map::empty(),
                claims: Map::empty(),
            }),
    {
        Self {
            system: system::Pallet::new(),
            balances: balances::Pallet::new(),
            proof_of_existence: proof_of_existence::Pallet::new(),
        }
    }

    /// How many extrinsics of `extrinsics` the caller of the one at `at` has
    /// submitted.
    fn count_submissions(extrinsics: &Vec<types::Extrinsic>, at: usize) -> (r: usize)
        requires
            at < extrinsics@.len(),
        ensures
            r == submitted_by(submissions(extrinsics@), extrinsics@[at as int].caller@),
            r >= 1,
    {
        let ghost batch = submissions(extrinsics@);
        let ghost who = extrinsics@[at as int].caller@;
        let mut count: usize = 0;
        let mut j: usize = 0;
        while j < extrinsics.len()
            invariant
                j <= extrinsics@.len(),
                at < extrinsics@.len(),
                batch == submissions(extrinsics@),
                who == extrinsics@[at as int].caller@,
                count == submitted_by(batch.take(j as int), who),
                count <= j,
                j > at ==> count >= 1,
            decreases extrinsics@.len() - j,
        {
            proof {
                assert(batch.take(j + 1).drop_last() =~= batch.take(j as int));
                assert(batch.take(j + 1).last() == batch[j as int]);
            }
            if extrinsics[j].caller.same(&extrinsics[at].caller) {
                count += 1;
            }
            j += 1;
        }
        proof {
            assert(batch.take(j as int) =~= batch);
        }
        count
    }

    /// Whether `execute_block` can take `block`: the block number has room
    /// to advance and, where the header names the next block, so has every
    /// nonce that the block advances.
    pub fn can_execute(&self, block: &types::Block) -> (r: bool)
        ensures
            r == {
                &&& self@.height < u32::MAX
                &&& block.header.block_number == self@.height + 1 ==> nonces_fit(
                    self@,
                    submissions(block.extrinsics@),
                )
            },
    {
        let height = self.system.latest_block();
        if height == u32::MAX {
            return false;
        }
        if block.header.block_number != height + 1 {
            return true;
        }
        let ghost batch = submissions(block.extrinsics@);
        let mut i: usize = 0;
        while i < block.extrinsics.len()
            invariant
                i <= block.extrinsics@.len(),
                batch == submissions(block.extrinsics@),
                block.header.block_number == self@.height + 1,
                forall|k: int|
                    0 <= k < i ==> nonce_of(self@.nonces, (#[trigger] batch[k]).0) + submitted_by(
                        batch,
                        batch[k].0,
                    ) <= u32::MAX,
            decreases block.extrinsics@.len() - i,
        {
            let nonce = self.system.recorded_nonce(&block.extrinsics[i].caller);
            let count = Self::count_submissions(&block.extrinsics, i);
            let room = u32::MAX - nonce;
            if count > room as usize {
                proof {
                    let who = batch[i as int].0;
                    assert(0 < submitted_by(batch, who));
                    assert(nonce_of(self@.nonces, who) + submitted_by(batch, who) > u32::MAX);
                }
                return false;
            }
            i += 1;
        }
        proof {
            assert forall|who: Seq<char>| 0 < #[trigger] submitted_by(batch, who) implies nonce_of(
                self@.nonces,
                who,
            ) + submitted_by(batch, who) <= u32::MAX by {
                let k = lemma_submitter_is_in_batch(batch, who);
                assert(batch[k].0 == who);
            }
        }
        true
    }

    /// Executes a block.
    ///
    /// The block number advances first.  A block whose header does not then
    /// name the current block is refused as a whole: nothing else changes.
    /// Otherwise every extrinsic is applied in order; one that fails is
    /// reported and the rest still run.
    pub fn execute_block(&mut self, block: types::Block) -> (r: Result<
        Vec<ExtrinsicFailure>,
        &'static str,
    >)
        requires
            old(self)@.height < u32::MAX,
            block.header.block_number == old(self)@.height + 1 ==> nonces_fit(
                old(self)@,
                submissions(block.extrinsics@),
            ),
        ensures
            final(self)@.height == old(self)@.height + 1,
            block.header.block_number != old(self)@.height + 1 ==> {
                &&& r == Err::<Vec<ExtrinsicFailure>, &'static str>(BLOCK_NUMBER_MISMATCH)
                &&& final(self)@ == advanced(old(self)@)
            },
            block.header.block_number == old(self)@.height + 1 ==> {
                &&& r matches Ok(failures)
                &&& failures@ == reported(
                    advanced(old(self)@),
                    block.header.block_number,
                    submissions(block.extrinsics@),
                )
                &&& final(self)@ == executed(advanced(old(self)@), submissions(block.extrinsics@))
            },
    {
        self.system.inc_block_number();
        let number = block.header.block_number;
        if number != self.system.block_number() {
            return Err(BLOCK_NUMBER_MISMATCH);
        }
        let ghost start = self@;
        let ghost batch = submissions(block.extrinsics@);
        let mut failures: Vec<ExtrinsicFailure> = Vec::new();
        let mut index: usize = 0;
        let ghost count = block.extrinsics.len();
        proof {
            lemma_height_is_idle(old(self)@, batch);
            assert(batch.take(0) =~= Seq::empty());
        }
        for extrinsic in it: block.extrinsics
            invariant
                batch == submissions(it.seq()),
                it.seq().len() == count,
                index == it.index(),
                nonces_fit(start, batch),
                self@ == executed(start, batch.take(index as int)),
                failures@ == reported(start, number, batch.take(index as int)),
        {
            let ghost done = batch.take(index as int);
            let ghost now = batch.take(index + 1);
            proof {
                assert(now.drop_last() =~= done);
                assert(now.last() == batch[index as int]);
                assert(batch[index as int] == extrinsic@);
                lemma_room_for_next(start, batch, index as int);
            }
            let support::Extrinsic { caller, call } = extrinsic;
            self.system.inc_nonce(&caller);
            assert(self@ == charged(executed(start, done), caller@));
            match self.dispatch(caller, call) {
                Ok(_) => {},
                Err(error) => {
                    failures.push(ExtrinsicFailure { block_number: number, index, error });
                },
            }
            index += 1;
        }
        proof {
            assert(batch.take(index as int) =~= batch);
        }
        Ok(failures)
    }
}

/// A call changes the module that owns it and nothing else: never the block
/// number or a nonce, and never the other module's state.
pub proof fn lemma_dispatch_is_local(state: State, caller: Seq<char>, operation: Operation)
    ensures
        dispatched(state, caller, operation).height == state.height,
        dispatched(state, caller, operation).nonces == state.nonces,
        operation is Transfer ==> dispatched(state, caller, operation).claims == state.claims,
        !(operation is Transfer) ==> dispatched(state, caller, operation).balances
            == state.balances,
        outcome(state, caller, operation) is Err ==> dispatched(state, caller, operation) == state,
{
}

/// An account holds what it held before a batch in which it neither makes
/// nor receives a transfer; with nothing before the batch, that is zero.
pub proof fn lemma_untouched_balance(
    state: State,
    batch: Seq<(Seq<char>, Operation)>,
    who: Seq<char>,
)
    requires
        forall|i: int| 0 <= i < batch.len() ==> !moves_funds_of(#[trigger] batch[i], who),
    ensures
        balances::balance_of(executed(state, batch).balances, who) == balances::balance_of(
            state.balances,
            who,
        ),
    decreases batch.len(),
{
    if batch.len() > 0 {
        let earlier = batch.drop_last();
        assert forall|i: int| 0 <= i < earlier.len() implies !moves_funds_of(
            #[trigger] earlier[i],
            who,
        ) by {
            assert(earlier[i] == batch[i]);
        }
        lemma_untouched_balance(state, earlier, who);
        assert(!moves_funds_of(batch[batch.len() - 1], who));
    }
}

/// Extrinsics never touch the block number, so advancing it before or after
/// a batch makes no difference to the rest of the state.
pub proof fn lemma_height_is_idle(state: State, batch: Seq<(Seq<char>, Operation)>)
    ensures
        executed(state, batch).height == state.height,
        executed(advanced(state), batch) == advanced(executed(state, batch)),
        nonces_fit(advanced(state), batch) == nonces_fit(state, batch),
    decreases batch.len(),
{
    if batch.len() > 0 {
        lemma_height_is_idle(state, batch.drop_last());
    }
}

/// Every extrinsic advances its caller's nonce by exactly one, whether its
/// call succeeds or fails: after a batch, each account's nonce has grown by
/// the number of extrinsics it submitted.
pub proof fn lemma_nonce_counts_submissions(
    state: State,
    batch: Seq<(Seq<char>, Operation)>,
    who: Seq<char>,
)
    ensures
        nonce_of(executed(state, batch).nonces, who) == nonce_of(state.nonces, who) + submitted_by(
            batch,
            who,
        ),
    decreases batch.len(),
{
    if batch.len() > 0 {
        lemma_nonce_counts_submissions(state, batch.drop_last(), who);
    }
}

/// A longer prefix of a batch holds no fewer extrinsics of an account.
pub proof fn lemma_submitted_by_grows(
    batch: Seq<(Seq<char>, Operation)>,
    i: int,
    j: int,
    who: Seq<char>,
)
    requires
        0 <= i <= j <= batch.len(),
    ensures
        submitted_by(batch.take(i), who) <= submitted_by(batch.take(j), who),
    decreases j - i,
{
    if i < j {
        lemma_submitted_by_grows(batch, i, j - 1, who);
        assert(batch.take(j).drop_last() =~= batch.take(j - 1));
    }
}

/// Where the nonces fit the batch, the caller of each extrinsic has room for
/// one more when its turn comes.
proof fn lemma_room_for_next(state: State, batch: Seq<(Seq<char>, Operation)>, i: int)
    requires
        nonces_fit(state, batch),
        0 <= i < batch.len(),
    ensures
        nonce_of(executed(state, batch.take(i)).nonces, batch[i].0) < u32::MAX,
{
    let who = batch[i].0;
    lemma_nonce_counts_submissions(state, batch.take(i), who);
    assert(batch.take(i + 1).drop_last() =~= batch.take(i));
    assert(batch.take(i + 1).last() == batch[i]);
    assert(submitted_by(batch.take(i + 1), who) == submitted_by(batch.take(i), who) + 1);
    lemma_submitted_by_grows(batch, i + 1, batch.len() as int, who);
    assert(batch.take(batch.len() as int) =~= batch);
}

/// The nonces fit any batch that is no longer than the room the fullest
/// nonce has left.
pub proof fn lemma_short_batch_fits(state: State, batch: Seq<(Seq<char>, Operation)>)
    requires
        forall|who: Seq<char>| nonce_of(state.nonces, who) + batch.len() <= u32::MAX,
    ensures
        nonces_fit(state, batch),
{
    assert forall|who: Seq<char>| 0 < #[trigger] submitted_by(batch, who) implies nonce_of(
        state.nonces,
        who,
    ) + submitted_by(batch, who) <= u32::MAX by {
        lemma_submitted_by_at_most_len(batch, who);
    }
}

/// An account that has submitted an extrinsic of a batch is the caller of
/// one of them.
pub proof fn lemma_submitter_is_in_batch(batch: Seq<(Seq<char>, Operation)>, who: Seq<char>) -> (k:
    int)
    requires
        0 < submitted_by(batch, who),
    ensures
        0 <= k < batch.len(),
        batch[k].0 == who,
    decreases batch.len(),
{
    if batch.last().0 == who {
        batch.len() - 1
    } else {
        lemma_submitter_is_in_batch(batch.drop_last(), who)
    }
}

/// An account submits no more extrinsics than the batch holds.
pub proof fn lemma_submitted_by_at_most_len(batch: Seq<(Seq<char>, Operation)>, who: Seq<char>)
    ensures
        submitted_by(batch, who) <= batch.len(),
    decreases batch.len(),
{
    if batch.len() > 0 {
        lemma_submitted_by_at_most_len(batch.drop_last(), who);
    }
}

/// Conservation over a block: whatever the extrinsics of a batch do, the sum
/// of all balances stays as it was.
pub proof fn lemma_batch_conserves_total(state: State, batch: Seq<(Seq<char>, Operation)>)
    requires
        state.balances.dom().finite(),
    ensures
        executed(state, batch).balances.dom().finite(),
        balances::total(executed(state, batch).balances) == balances::total(state.balances),
    decreases batch.len(),
{
    if batch.len() > 0 {
        lemma_batch_conserves_total(state, batch.drop_last());
        let before = charged(executed(state, batch.drop_last()), batch.last().0);
        match batch.last().1 {
            Operation::Transfer { to, amount } => {
                if outcome(before, batch.last().0, batch.last().1) is Ok {
                    balances::lemma_transfer_conserves_total(
                        before.balances,
                        batch.last().0,
                        to,
                        amount,
                    );
                }
            },
            _ => {},
        }
    }
}

/// A failing extrinsic changes nothing but its caller's nonce.
pub proof fn lemma_failure_is_skipped(
    state: State,
    batch: Seq<(Seq<char>, Operation)>,
    submission: (Seq<char>, Operation),
)
    requires
        outcome(charged(executed(state, batch), submission.0), submission.0, submission.1) is Err,
    ensures
        executed(state, batch.push(submission)) == charged(executed(state, batch), submission.0),
{
    assert(batch.push(submission).drop_last() =~= batch);
}

impl Dispatch for Runtime {
    type Caller = types::AccountId;

    type Call = RuntimeCall;

    /// Routes a call to the module that owns it and hands back that
    /// module's outcome.
    fn dispatch(&mut self, caller: Self::Caller, runtime_call: Self::Call) -> (r: DispatchResult)
        ensures
            r == outcome(old(self)@, caller@, runtime_call@),
            final(self)@ == dispatched(old(self)@, caller@, runtime_call@),
    {
        match runtime_call {
            RuntimeCall::Balances(call) => self.balances.dispatch(caller, call),
            RuntimeCall::ProofOfExistence(call) => self.proof_of_existence.dispatch(caller, call),
        }
    }
}

} // verus!
