//! The balance ledger: how much each account holds, and transfers between
//! accounts.
use crate::arith::Quantity;
use crate::identity::Identifier;
use crate::storage::StorageMap;
use crate::support::{Dispatch, DispatchResult};
use vstd::prelude::*;

verus! {

/// The types the ledger is built from.
pub trait Config: crate::system::Config {
    /// Measures what an account holds.
    type Balance: Quantity;
}

/// Why a transfer is refused when the caller holds less than the amount.
pub const NOT_ENOUGH_FUNDS: &'static str = "Not enough funds.";

/// Why a transfer is refused when the receiver's balance would not fit.
pub const OVERFLOW: &'static str = "Overflow";

/// The balance of every account that has an entry.
#[derive(Debug)]
pub struct Pallet<T: Config> {
    balances: StorageMap<T::AccountId, T::Balance>,
}

/// The calls the ledger understands.
pub enum Call<T: Config> {
    /// Move `amount` from the caller to `to`.
    Transfer { to: T::AccountId, amount: T::Balance },
}

/// What `who` holds: an account without an entry holds nothing.
pub open spec fn balance_of<A>(ledger: Map<A, nat>, who: A) -> nat {
    if ledger.contains_key(who) {
        ledger[who]
    } else {
        0
    }
}

/// The sum of all balances of a ledger with finitely many entries.
pub open spec fn total<A>(ledger: Map<A, nat>) -> nat
    decreases ledger.dom().len(),
    when ledger.dom().finite()
{
    if ledger.dom().len() == 0 {
        0
    } else {
        let who = ledger.dom().choose();
        ledger[who] + total(ledger.remove(who))
    }
}

/// The outcome of a transfer of `amount` from `caller` to `to`, where no
/// balance may exceed `ceiling`.  Both checks read the ledger as it stands
/// before the transfer.
pub open spec fn transfer_outcome<A>(
    ledger: Map<A, nat>,
    caller: A,
    to: A,
    amount: nat,
    ceiling: nat,
) -> DispatchResult {
    if balance_of(ledger, caller) < amount {
        Err(NOT_ENOUGH_FUNDS)
    } else if balance_of(ledger, to) + amount > ceiling {
        Err(OVERFLOW)
    } else {
        Ok(())
    }
}

/// The ledger after `amount` has moved from `caller` to `to`: the caller is
/// debited, then the receiver is credited.  A transfer to oneself leaves the
/// balance as it was.
pub open spec fn transferred<A>(ledger: Map<A, nat>, caller: A, to: A, amount: nat) -> Map<A, nat>
    recommends
        balance_of(ledger, caller) >= amount,
{
    let debited = ledger.insert(caller, (balance_of(ledger, caller) - amount) as nat);
    debited.insert(to, balance_of(debited, to) + amount)
}

/// Taking one entry out of a ledger lowers the total by that entry's balance,
/// whichever entry it is.
pub proof fn lemma_total_remove<A>(ledger: Map<A, nat>, who: A)
    requires
        ledger.dom().finite(),
        ledger.contains_key(who),
    ensures
        total(ledger) == ledger[who] + total(ledger.remove(who)),
    decreases ledger.dom().len(),
{
    let first = ledger.dom().choose();
    if first != who {
        let rest = ledger.remove(first);
        lemma_total_remove(rest, who);
        let other = ledger.remove(who);
        assert(other.contains_key(first));
        lemma_total_remove(other, first);
        assert(rest.remove(who) =~= other.remove(first));
    }
}

/// Writing a balance changes the total by the difference between the new
/// balance and the old one.
pub proof fn lemma_total_insert<A>(ledger: Map<A, nat>, who: A, balance: nat)
    requires
        ledger.dom().finite(),
    ensures
        total(ledger.insert(who, balance)) + balance_of(ledger, who) == total(ledger) + balance,
{
    let written = ledger.insert(who, balance);
    lemma_total_remove(written, who);
    if ledger.contains_key(who) {
        lemma_total_remove(ledger, who);
        assert(written.remove(who) =~= ledger.remove(who));
    } else {
        assert(written.remove(who) =~= ledger);
    }
}

/// A ledger without entries holds nothing for anyone, and nothing in total.
pub proof fn lemma_empty_ledger<A>(who: A)
    ensures
        balance_of(Map::<A, nat>::empty(), who) == 0,
        total(Map::<A, nat>::empty()) == 0,
{
}

/// Conservation: a transfer that the caller can afford leaves the sum of all
/// balances as it was.
pub proof fn lemma_transfer_conserves_total<A>(ledger: Map<A, nat>, caller: A, to: A, amount: nat)
    requires
        ledger.dom().finite(),
        balance_of(ledger, caller) >= amount,
    ensures
        total(transferred(ledger, caller, to, amount)) == total(ledger),
{
    let debit = (balance_of(ledger, caller) - amount) as nat;
    let debited = ledger.insert(caller, debit);
    lemma_total_insert(ledger, caller, debit);
    lemma_total_insert(debited, to, balance_of(debited, to) + amount);
}

/// A transfer changes the balances of the caller and the receiver and of
/// nobody else: the caller loses the amount and the receiver gains it.
pub proof fn lemma_transfer_moves_amount<A>(
    ledger: Map<A, nat>,
    caller: A,
    to: A,
    amount: nat,
    who: A,
)
    requires
        balance_of(ledger, caller) >= amount,
    ensures
        who != caller && who != to ==> balance_of(transferred(ledger, caller, to, amount), who)
            == balance_of(ledger, who),
        caller != to ==> balance_of(transferred(ledger, caller, to, amount), caller) + amount
            == balance_of(ledger, caller),
        caller != to ==> balance_of(transferred(ledger, caller, to, amount), to) == balance_of(
            ledger,
            to,
        ) + amount,
        caller == to ==> balance_of(transferred(ledger, caller, to, amount), caller) == balance_of(
            ledger,
            caller,
        ),
{
}

/// Setting one account's balance leaves every other account's balance alone.
pub proof fn lemma_set_balance_is_local<A>(ledger: Map<A, nat>, who: A, amount: nat, other: A)
    ensures
        balance_of(ledger.insert(who, amount), who) == amount,
        other != who ==> balance_of(ledger.insert(who, amount), other) == balance_of(ledger, other),
{
}

impl<T: Config> View for Pallet<T> {
    type V = Map<<T::AccountId as View>::V, nat>;

    closed spec fn view(&self) -> Map<<T::AccountId as View>::V, nat> {
        self.balances@.map_values(|b: T::Balance| b.value())
    }
}

impl<T: Config> Pallet<T> {
    /// A ledger has finitely many entries, and no balance exceeds what its
    /// type can hold.
    pub proof fn lemma_bounded(&self)
        ensures
            self@.dom().finite(),
            forall|who: <T::AccountId as View>::V| balance_of(self@, who) <= T::Balance::ceiling(),
    {
        self.balances.lemma_finite_domain();
        assert(self@.dom() =~= self.balances@.dom());
        assert forall|who: <T::AccountId as View>::V| balance_of(self@, who)
            <= T::Balance::ceiling() by {
            if self@.contains_key(who) {
                T::Balance::value_within_ceiling(self.balances@[who]);
            }
        }
    }

    /// A ledger without entries.
    pub fn new() -> (r: Self)
        ensures
            r@ == Map::<<T::AccountId as View>::V, nat>::empty(),
    {
        let r = Self { balances: StorageMap::new() };
        assert(r@ =~= Map::<<T::AccountId as View>::V, nat>::empty());
        r
    }

    /// Sets the balance of `who` to `amount`.
    pub fn set_balance(&mut self, who: &T::AccountId, amount: T::Balance)
        ensures
            final(self)@ == old(self)@.insert(who@, amount.value()),
    {
        self.balances.insert(who.duplicate(), amount);
        assert(self@ =~= old(self)@.insert(who@, amount.value()));
    }

    /// The balance of `who`; zero for an account without an entry.
    pub fn balance(&self, who: &T::AccountId) -> (r: T::Balance)
        ensures
            r.value() == balance_of(self@, who@),
    {
        match self.balances.get(who) {
            Some(b) => *b,
            None => T::Balance::zero(),
        }
    }

    /// Moves `amount` from `caller` to `to`.
    ///
    /// The transfer is refused, and the ledger left as it was, where the
    /// caller holds less than `amount` or where the receiver's balance plus
    /// `amount` exceeds what a balance can hold.
    pub fn transfer(
        &mut self,
        caller: T::AccountId,
        to: T::AccountId,
        amount: T::Balance,
    ) -> (r: DispatchResult)
        ensures
            r == transfer_outcome(
                old(self)@,
                caller@,
                to@,
                amount.value(),
                T::Balance::ceiling(),
            ),
            r is Ok ==> final(self)@ == transferred(old(self)@, caller@, to@, amount.value()),
            r is Ok ==> total(final(self)@) == total(old(self)@),
            r is Err ==> final(self)@ == old(self)@,
    {
        let caller_balance = self.balance(&caller);
        let to_balance = self.balance(&to);

        let new_caller_balance = match caller_balance.checked_sub(&amount) {
            Some(b) => b,
            None => {
                return Err(NOT_ENOUGH_FUNDS);
            },
        };
        let new_to_balance = match to_balance.checked_add(&amount) {
            Some(b) => b,
            None => {
                return Err(OVERFLOW);
            },
        };
        let credited = if caller.same(&to) {
            caller_balance
        } else {
            new_to_balance
        };

        proof {
            T::Balance::value_within_ceiling(new_to_balance);
            old(self).lemma_bounded();
            lemma_transfer_conserves_total(old(self)@, caller@, to@, amount.value());
        }
        self.balances.insert(caller, new_caller_balance);
        self.balances.insert(to, credited);
        assert(self@ =~= transferred(old(self)@, caller@, to@, amount.value()));
        Ok(())
    }
}

impl<T: Config> Dispatch for Pallet<T> {
    type Caller = T::AccountId;

    type Call = Call<T>;

    /// Routes a ledger call to the operation it names.
    fn dispatch(&mut self, caller: Self::Caller, call: Self::Call) -> (r: DispatchResult)
        ensures
            match call {
                Call::Transfer { to, amount } => {
                    &&& r == transfer_outcome(
                        old(self)@,
                        caller@,
                        to@,
                        amount.value(),
                        T::Balance::ceiling(),
                    )
                    &&& final(self)@ == if r is Ok {
                        transferred(old(self)@, caller@, to@, amount.value())
                    } else {
                        old(self)@
                    }
                },
            },
    {
        match call {
            Call::Transfer { to, amount } => self.transfer(caller, to, amount),
        }
    }
}

} // verus!
