//! The shapes shared by every module: blocks, extrinsics and dispatch.
use vstd::prelude::*;

verus! {

/// The outcome of a dispatched call: success, or the reason it was refused.
pub type DispatchResult = Result<(), &'static str>;

/// The part of a block that says which block it is.
#[derive(Debug)]
pub struct Header<BlockNumber> {
    pub block_number: BlockNumber,
}

/// One submitted operation: who asks, and what for.
#[derive(Debug)]
pub struct Extrinsic<Caller, Call> {
    pub caller: Caller,
    pub call: Call,
}

/// An ordered batch of extrinsics under one header.
#[derive(Debug)]
pub struct Block<Header, Extrinsic> {
    pub header: Header,
    pub extrinsics: Vec<Extrinsic>,
}

impl<Caller: View, Call: View> View for Extrinsic<Caller, Call> {
    type V = (Caller::V, Call::V);

    /// The caller's name and the call's meaning.
    open spec fn view(&self) -> (Caller::V, Call::V) {
        (self.caller@, self.call@)
    }
}

/// A module that can route a call made on behalf of a caller to the
/// operation the call names.
pub trait Dispatch {
    /// Who makes a call.
    type Caller;

    /// The calls the module understands.
    type Call;

    /// Performs `call` on behalf of `caller` and hands back its outcome.
    fn dispatch(&mut self, caller: Self::Caller, call: Self::Call) -> (r: DispatchResult);
}

} // verus!
