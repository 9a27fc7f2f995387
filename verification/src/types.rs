//! The concrete types the runtime is assembled from.
use crate::runtime::RuntimeCall;
use crate::support;
use vstd::prelude::*;

verus! {

pub type AccountId = String;

pub type Balance = u128;

pub type BlockNumber = u32;

pub type Nonce = u32;

pub type Content = &'static str;

pub type Extrinsic = support::Extrinsic<AccountId, RuntimeCall>;

pub type Header = support::Header<BlockNumber>;

pub type Block = support::Block<Header, Extrinsic>;

/// Binds the types above to the modules of the runtime.
#[derive(Debug)]
pub struct Configuration;

impl crate::system::Config for Configuration {
    type AccountId = AccountId;

    type BlockNumber = BlockNumber;

    type Nonce = Nonce;
}

impl crate::balances::Config for Configuration {
    type Balance = Balance;
}

impl crate::proof_of_existence::Config for Configuration {
    type Content = Content;
}

} // verus!
