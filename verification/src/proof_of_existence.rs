//! The claim registry: which account owns which piece of content.
use crate::identity::Identifier;
use crate::storage::StorageMap;
use crate::support::{Dispatch, DispatchResult};
use vstd::prelude::*;

verus! {

/// The types the registry is built from.
pub trait Config: crate::system::Config {
    /// The content that can be claimed: the content itself, or a digest of it.
    type Content: Identifier;
}

/// Why a claim is refused when the content has an owner already.
pub const ALREADY_CLAIMED: &'static str = "this content is already claimed";

/// Why a revocation is refused when nobody has claimed the content.
pub const CLAIM_NOT_FOUND: &'static str = "claim does not exist";

/// Why a revocation is refused when the content is owned by someone else.
pub const NOT_CLAIM_OWNER: &'static str = "this content belongs someone else";

/// The owner of every claimed piece of content.  An account may own many
/// pieces of content; a piece of content has at most one owner.
#[derive(Debug)]
pub struct Pallet<T: Config> {
    claims: StorageMap<T::Content, T::AccountId>,
}

/// The calls the registry understands.
pub enum Call<T: Config> {
    /// Claim `claim` for the caller.
    CreateClaim { claim: T::Content },
    /// Give up the caller's claim on `claim`.
    RevokeClaim { claim: T::Content },
}

/// The outcome of an attempt to claim `content`.
pub open spec fn create_outcome<C, A>(claims: Map<C, A>, content: C) -> DispatchResult {
    if claims.contains_key(content) {
        Err(ALREADY_CLAIMED)
    } else {
        Ok(())
    }
}

/// The outcome of an attempt by `caller` to revoke the claim on `content`.
pub open spec fn revoke_outcome<C, A>(claims: Map<C, A>, caller: A, content: C) -> DispatchResult {
    if !claims.contains_key(content) {
        Err(CLAIM_NOT_FOUND)
    } else if claims[content] != caller {
        Err(NOT_CLAIM_OWNER)
    } else {
        Ok(())
    }
}

/// The registry after `caller` has tried to claim `content`.
pub open spec fn after_create<C, A>(claims: Map<C, A>, caller: A, content: C) -> Map<C, A> {
    if create_outcome(claims, content) is Ok {
        claims.insert(content, caller)
    } else {
        claims
    }
}

/// The registry after `caller` has tried to revoke the claim on `content`.
pub open spec fn after_revoke<C, A>(claims: Map<C, A>, caller: A, content: C) -> Map<C, A> {
    if revoke_outcome(claims, caller, content) is Ok {
        claims.remove(content)
    } else {
        claims
    }
}

/// A claim on content that has an owner is refused and the owner stays.
pub proof fn lemma_claimed_content_keeps_owner<C, A>(claims: Map<C, A>, caller: A, content: C)
    requires
        claims.contains_key(content),
    ensures
        create_outcome(claims, content) == Err::<(), &'static str>(ALREADY_CLAIMED),
        after_create(claims, caller, content) == claims,
        after_create(claims, caller, content)[content] == claims[content],
{
}

/// A revocation by anyone but the owner is refused and the owner stays.
pub proof fn lemma_only_owner_revokes<C, A>(claims: Map<C, A>, caller: A, content: C)
    requires
        claims.contains_key(content),
        claims[content] != caller,
    ensures
        revoke_outcome(claims, caller, content) == Err::<(), &'static str>(NOT_CLAIM_OWNER),
        after_revoke(claims, caller, content) == claims,
        after_revoke(claims, caller, content).contains_key(content),
        after_revoke(claims, caller, content)[content] == claims[content],
{
}

/// A revocation of content that nobody has claimed is refused.
pub proof fn lemma_revoke_needs_claim<C, A>(claims: Map<C, A>, caller: A, content: C)
    requires
        !claims.contains_key(content),
    ensures
        revoke_outcome(claims, caller, content) == Err::<(), &'static str>(CLAIM_NOT_FOUND),
        after_revoke(claims, caller, content) == claims,
{
}

/// Content changes hands only by a revocation followed by a new claim: after
/// the owner has revoked, the content is free, and whoever claims it next
/// owns it.
pub proof fn lemma_revoke_then_create<C, A>(claims: Map<C, A>, owner: A, next: A, content: C)
    requires
        claims.contains_key(content),
        claims[content] == owner,
    ensures
        !after_revoke(claims, owner, content).contains_key(content),
        create_outcome(after_revoke(claims, owner, content), content) is Ok,
        after_create(after_revoke(claims, owner, content), next, content)[content] == next,
{
}

impl<T: Config> View for Pallet<T> {
    type V = Map<<T::Content as View>::V, <T::AccountId as View>::V>;

    closed spec fn view(&self) -> Map<<T::Content as View>::V, <T::AccountId as View>::V> {
        self.claims@.map_values(|owner: T::AccountId| owner@)
    }
}

impl<T: Config> Pallet<T> {
    /// A registry without claims.
    pub fn new() -> (r: Self)
        ensures
            r@ == Map::<<T::Content as View>::V, <T::AccountId as View>::V>::empty(),
    {
        let r = Self { claims: StorageMap::new() };
        assert(r@ =~= Map::<<T::Content as View>::V, <T::AccountId as View>::V>::empty());
        r
    }

    /// The owner of `claim`, if it has one.
    pub fn get_claim(&self, claim: &T::Content) -> (r: Option<&T::AccountId>)
        ensures
            match r {
                Some(owner) => self@.contains_key(claim@) && owner@ == self@[claim@],
                None => !self@.contains_key(claim@),
            },
    {
        self.claims.get(claim)
    }

    /// Claims `claim` for `caller`.  Content that has an owner cannot be
    /// claimed again.
    pub fn create_claim(&mut self, caller: T::AccountId, claim: T::Content) -> (r: DispatchResult)
        ensures
            r == create_outcome(old(self)@, claim@),
            final(self)@ == after_create(old(self)@, caller@, claim@),
    {
        if self.claims.contains_key(&claim) {
            return Err(ALREADY_CLAIMED);
        }
        self.claims.insert(claim, caller);
        assert(self@ =~= old(self)@.insert(claim@, caller@));
        Ok(())
    }

    /// Revokes the claim on `claim`.  Only the owner of an existing claim
    /// can revoke it; the content is then free again.
    pub fn revoke_claim(&mut self, caller: T::AccountId, claim: T::Content) -> (r: DispatchResult)
        ensures
            r == revoke_outcome(old(self)@, caller@, claim@),
            final(self)@ == after_revoke(old(self)@, caller@, claim@),
    {
        let owner = match self.get_claim(&claim) {
            Some(owner) => owner,
            None => {
                return Err(CLAIM_NOT_FOUND);
            },
        };
        if !caller.same(owner) {
            return Err(NOT_CLAIM_OWNER);
        }
        self.claims.remove(&claim);
        assert(self@ =~= old(self)@.remove(claim@));
        Ok(())
    }
}

impl<T: Config> Dispatch for Pallet<T> {
    type Caller = T::AccountId;

    type Call = Call<T>;

    /// Routes a registry call to the operation it names.
    fn dispatch(&mut self, caller: Self::Caller, call: Self::Call) -> (r: DispatchResult)
        ensures
            match call {
                Call::CreateClaim { claim } => {
                    &&& r == create_outcome(old(self)@, claim@)
                    &&& final(self)@ == after_create(old(self)@, caller@, claim@)
                },
                Call::RevokeClaim { claim } => {
                    &&& r == revoke_outcome(old(self)@, caller@, claim@)
                    &&& final(self)@ == after_revoke(old(self)@, caller@, claim@)
                },
            },
    {
        match call {
            Call::CreateClaim { claim } => self.create_claim(caller, claim),
            Call::RevokeClaim { claim } => self.revoke_claim(caller, claim),
        }
    }
}

} // verus!
