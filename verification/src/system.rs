//! The system module: the current block number and per-account nonces.

use vstd::prelude::*;

verus! {

use crate::{AccountId, BlockNumber, Nonce};
use crate::account_map::{AccountMap, stored_or_zero};

/// The mathematical state of the system module.
#[verifier::ext_equal]
pub struct SystemView {
    /// Chain-height counter.
    pub block_number: u64,
    /// Per-account transaction counters; an absent key reads as zero.
    pub nonces: Map<Seq<char>, u64>,
}

/// The state every system module starts from.
pub open spec fn fresh_system() -> SystemView {
    SystemView { block_number: 0, nonces: Map::<Seq<char>, u64>::empty() }
}

/// The system module.
#[derive(Debug)]
pub struct Pallet {
    block_number: BlockNumber,
    nonce: AccountMap,
}

impl View for Pallet {
    type V = SystemView;

    closed spec fn view(&self) -> SystemView {
        SystemView { block_number: self.block_number, nonces: self.nonce@ }
    }
}

impl Pallet {
    /// A module at block zero with an empty nonce table.
    pub fn new() -> (r: Self)
        ensures
            r@ == fresh_system(),
    {
        let r = Pallet { block_number: 0, nonce: AccountMap::new() };
        proof {
            assert(r@ =~= fresh_system());
        }
        r
    }

    /// The current block number. Pure.
    pub fn block_number(&self) -> (r: BlockNumber)
        ensures
            r == self@.block_number,
    {
        self.block_number
    }

    /// Advances the block number by one. Overflow is unrecoverable
    /// corruption of the state machine, so the counter must not be at
    /// its ceiling.
    pub fn increment_block_number(&mut self)
        requires
            old(self)@.block_number < u64::MAX,
        ensures
            final(self)@ == inc_block(old(self)@),
            final(self)@.block_number == old(self)@.block_number + 1,
            final(self)@.nonces == old(self)@.nonces,
    {
        self.block_number = self.block_number + 1;
        proof {
            assert(self@ =~= inc_block(old(self)@));
        }
    }

    /// Advances the nonce of `who` by one, from zero when `who` is
    /// absent. Overflow is unrecoverable, so the nonce must not be at
    /// its ceiling.
    pub fn inc_nounce(&mut self, who: &AccountId)
        requires
            stored_or_zero(old(self)@.nonces, who@) < u64::MAX,
        ensures
            final(self)@ == inc_nonce(old(self)@, who@),
            final(self)@.block_number == old(self)@.block_number,
            final(self)@.nonces == old(self)@.nonces.insert(
                who@,
                (stored_or_zero(old(self)@.nonces, who@) + 1) as u64,
            ),
    {
        let current = match self.nonce.get(who) {
            Some(v) => v,
            None => 0,
        };
        self.nonce.set(who, current + 1);
        proof {
            assert(self@ =~= inc_nonce(old(self)@, who@));
        }
    }

    /// The nonce of `who`, or zero when `who` is absent.
    /// Observation-pure: the result is a function of the state alone,
    /// and a miss inserts nothing.
    pub fn get_nonce(&self, who: &AccountId) -> (r: Nonce)
        ensures
            r == stored_or_zero(self@.nonces, who@),
    {
        match self.nonce.get(who) {
            Some(v) => v,
            None => 0,
        }
    }
}

/// The state after one block-number increment.
pub open spec fn inc_block(s: SystemView) -> SystemView {
    SystemView { block_number: (s.block_number + 1) as u64, ..s }
}

/// The state after one nonce increment for `who`.
pub open spec fn inc_nonce(s: SystemView, who: Seq<char>) -> SystemView {
    SystemView {
        block_number: s.block_number,
        nonces: s.nonces.insert(who, (stored_or_zero(s.nonces, who) + 1) as u64),
    }
}

/// The state after `k` block-number increments.
pub open spec fn inc_block_n(s: SystemView, k: nat) -> SystemView
    decreases k,
{
    if k == 0 {
        s
    } else {
        inc_block(inc_block_n(s, (k - 1) as nat))
    }
}

/// The state after `k` nonce increments for `who`.
pub open spec fn inc_nonce_n(s: SystemView, who: Seq<char>, k: nat) -> SystemView
    decreases k,
{
    if k == 0 {
        s
    } else {
        inc_nonce(inc_nonce_n(s, who, (k - 1) as nat), who)
    }
}

/// Law: a fresh system is at block zero and every account reads as
/// nonce zero.
pub proof fn lemma_fresh_system(who: Seq<char>)
    ensures
        fresh_system().block_number == 0,
        stored_or_zero(fresh_system().nonces, who) == 0,
{
}

/// Law: `k` successful block-number increments from a fresh system
/// leave the block number at exactly `k`, and touch no nonce.
pub proof fn lemma_block_number_counts(k: nat)
    requires
        k <= u64::MAX,
    ensures
        inc_block_n(fresh_system(), k).block_number == k,
        inc_block_n(fresh_system(), k).nonces == Map::<Seq<char>, u64>::empty(),
    decreases k,
{
    if k > 0 {
        lemma_block_number_counts((k - 1) as nat);
    }
}

/// Law: `k` successful nonce increments for one account, from a fresh
/// system, leave that account's nonce at exactly `k`, every other
/// account's nonce at zero, and the block number at zero.
pub proof fn lemma_nonce_counts(who: Seq<char>, other: Seq<char>, k: nat)
    requires
        k <= u64::MAX,
        other != who,
    ensures
        stored_or_zero(inc_nonce_n(fresh_system(), who, k).nonces, who) == k,
        stored_or_zero(inc_nonce_n(fresh_system(), who, k).nonces, other) == 0,
        inc_nonce_n(fresh_system(), who, k).block_number == 0,
    decreases k,
{
    if k > 0 {
        lemma_nonce_counts(who, other, (k - 1) as nat);
    }
}

} // verus!
