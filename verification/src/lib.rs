//! A minimal in-memory model of a blockchain runtime's state layer.
//!
//! Two independent state modules — an account-balances ledger and a
//! system module holding the block counter and per-account nonces —
//! are composed by a [`Runtime`] that owns one instance of each.

use vstd::prelude::*;

pub mod account_map;
pub mod balances;
pub mod system;

verus! {

/// Opaque account identifier; equality and ordering define map-key identity.
pub type AccountId = String;

/// Non-negative quantity held by an account.
pub type Balance = u64;

/// Monotonically non-decreasing chain-height counter.
pub type BlockNumber = u64;

/// Per-account transaction sequence counter.
pub type Nonce = u64;

/// Composition root: exclusive owner of one instance of each state
/// module. It binds the concrete types once and performs no policy of
/// its own; the driver invokes module operations through it.
#[derive(Debug)]
pub struct Runtime {
    pub system: system::Pallet,
    pub balances: balances::Pallet,
}

impl Runtime {
    /// A runtime with fresh default instances of both modules.
    pub fn new() -> (r: Runtime)
        ensures
            r.system@ == system::fresh_system(),
            r.balances@ == Map::<Seq<char>, u64>::empty(),
    {
        Runtime { system: system::Pallet::new(), balances: balances::Pallet::new() }
    }
}

} // verus!
