//! The system state: the current block number and each account's nonce.
use crate::arith::Quantity;
use crate::identity::Identifier;
use crate::storage::StorageMap;
use vstd::prelude::*;

verus! {

/// The types the system state is built from.
pub trait Config {
    /// Names an account.
    type AccountId: Identifier;

    /// Counts blocks.
    type BlockNumber: Quantity;

    /// Counts the extrinsics an account has submitted.
    type Nonce: Quantity;
}

/// The block number and the nonce of every account that has one.
#[derive(Debug)]
pub struct Pallet<T: Config> {
    block_number: T::BlockNumber,
    nonce: StorageMap<T::AccountId, T::Nonce>,
}

/// The nonce recorded for `who`: an account without an entry has used none.
pub open spec fn nonce_of<A>(nonces: Map<A, nat>, who: A) -> nat {
    if nonces.contains_key(who) {
        nonces[who]
    } else {
        0
    }
}

impl<T: Config> Pallet<T> {
    /// The number of the latest block.
    pub closed spec fn height(&self) -> nat {
        self.block_number.value()
    }

    /// The nonce stored for each account that has submitted an extrinsic.
    pub closed spec fn nonces(&self) -> Map<<T::AccountId as View>::V, nat> {
        self.nonce@.map_values(|n: T::Nonce| n.value())
    }

    /// The state at genesis: block zero, no nonces.
    pub fn new() -> (r: Self)
        ensures
            r.height() == 0,
            r.nonces() == Map::<<T::AccountId as View>::V, nat>::empty(),
    {
        let r = Self { block_number: T::BlockNumber::zero(), nonce: StorageMap::new() };
        assert(r.nonces() =~= Map::<<T::AccountId as View>::V, nat>::empty());
        r
    }

    /// The current block number.
    pub fn block_number(&mut self) -> (r: T::BlockNumber)
        ensures
            *final(self) == *old(self),
            r.value() == old(self).height(),
    {
        self.latest_block()
    }

    /// The current block number, read without a claim on the state.
    pub(crate) fn latest_block(&self) -> (r: T::BlockNumber)
        ensures
            r.value() == self.height(),
    {
        self.block_number
    }

    /// The nonce recorded for `who`: zero for an account without an entry.
    pub(crate) fn recorded_nonce(&self, who: &T::AccountId) -> (r: T::Nonce)
        ensures
            r.value() == nonce_of(self.nonces(), who@),
    {
        match self.nonce.get(who) {
            Some(n) => *n,
            None => T::Nonce::zero(),
        }
    }

    /// Advances the block number by one.
    pub fn inc_block_number(&mut self)
        requires
            old(self).height() < T::BlockNumber::ceiling(),
        ensures
            final(self).height() == old(self).height() + 1,
            final(self).nonces() == old(self).nonces(),
    {
        let one = T::BlockNumber::one();
        match self.block_number.checked_add(&one) {
            Some(next) => {
                self.block_number = next;
            },
            None => {
                assert(false);
            },
        }
    }

    /// Advances the nonce of `who` by one; an account without a nonce starts
    /// from zero.
    pub fn inc_nonce(&mut self, who: &T::AccountId)
        requires
            nonce_of(old(self).nonces(), who@) < T::Nonce::ceiling(),
        ensures
            final(self).height() == old(self).height(),
            final(self).nonces() == old(self).nonces().insert(
                who@,
                nonce_of(old(self).nonces(), who@) + 1,
            ),
    {
        let nonce = self.recorded_nonce(who);
        let one = T::Nonce::one();
        match nonce.checked_add(&one) {
            Some(new_nonce) => {
                self.nonce.insert(who.duplicate(), new_nonce);
                assert(self.nonces() =~= old(self).nonces().insert(
                    who@,
                    nonce_of(old(self).nonces(), who@) + 1,
                ));
            },
            None => {
                assert(false);
            },
        }
    }

    /// The nonce stored for `who`; for an account without an entry the
    /// answer is one.
    pub fn get_nonce(&mut self, who: &T::AccountId) -> (r: T::Nonce)
        ensures
            *final(self) == *old(self),
            r.value() == if old(self).nonces().contains_key(who@) {
                old(self).nonces()[who@]
            } else {
                1
            },
    {
        match self.nonce.get(who) {
            Some(n) => *n,
            None => T::Nonce::one(),
        }
    }
}

} // verus!
