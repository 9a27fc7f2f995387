//! A deterministic state-transition function for a small ledger chain.
//!
//! A [`Runtime`] holds three disjoint pieces of state: the system counters
//! (block number and per-account nonces), a ledger of account balances and
//! a registry of content claims.  [`Runtime::execute_block`] applies an
//! ordered batch of extrinsics to it.  Every operation is specified over a
//! mathematical model of the state, and the laws that relate the
//! operations are proved beside them.
pub mod arith;
pub mod balances;
pub mod identity;
pub mod proof_of_existence;
pub mod runtime;
pub mod storage;
pub mod support;
pub mod system;
pub mod types;

pub use runtime::{Runtime, RuntimeCall};
