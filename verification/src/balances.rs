//! The balances module: a ledger from account identifier to balance,
//! with query, direct set, and checked transfer.

use vstd::prelude::*;

verus! {

use crate::{AccountId, Balance};
use crate::account_map::{AccountMap, stored_or_zero};
use vstd::set::fold::{is_fun_commutative, lemma_finite_set_induct, lemma_fold_empty,
    lemma_fold_insert};

/// Why a transfer was refused. Either way the ledger is left exactly
/// as it was.
#[derive(Clone, Copy, Debug, PartialEq, Eq, Structural)]
pub enum TransferError {
    /// The debit would drive the source balance negative.
    InsufficientBalance,
    /// The credit would exceed the balance range.
    BalanceOverflow,
}

impl TransferError {
    /// Human-readable tag for this error.
    pub fn message(&self) -> (r: &'static str)
        ensures
            *self == TransferError::InsufficientBalance ==> r@ == "Insufficient balance"@,
            *self == TransferError::BalanceOverflow ==> r@ == "Balance overflow"@,
    {
        match self {
            TransferError::InsufficientBalance => "Insufficient balance",
            TransferError::BalanceOverflow => "Balance overflow",
        }
    }
}

/// The ledger after a successful transfer between distinct accounts:
/// the source debited, the destination credited.
pub open spec fn transfer_updated(
    m: Map<Seq<char>, u64>,
    from: Seq<char>,
    to: Seq<char>,
    amount: u64,
) -> Map<Seq<char>, u64> {
    m.insert(from, (stored_or_zero(m, from) - amount) as u64)
        .insert(to, (stored_or_zero(m, to) + amount) as u64)
}

/// The sum of all balances stored in a ledger.
pub open spec fn total_supply(m: Map<Seq<char>, u64>) -> int
    recommends
        m.dom().finite(),
{
    m.dom().fold(0int, |acc: int, k: Seq<char>| acc + m[k])
}

/// Two maps that agree on a finite key set sum to the same value over
/// that set.
proof fn lemma_supply_fold_congruent(
    m1: Map<Seq<char>, u64>,
    m2: Map<Seq<char>, u64>,
    s: Set<Seq<char>>,
)
    requires
        s.finite(),
        forall|k: Seq<char>| s.contains(k) ==> m1[k] == m2[k],
    ensures
        s.fold(0int, |acc: int, k: Seq<char>| acc + m1[k]) == s.fold(
            0int,
            |acc: int, k: Seq<char>| acc + m2[k],
        ),
{
    let f1 = |acc: int, k: Seq<char>| acc + m1[k];
    let f2 = |acc: int, k: Seq<char>| acc + m2[k];
    assert(is_fun_commutative(f1));
    assert(is_fun_commutative(f2));
    let pred = |t: Set<Seq<char>>|
        (forall|k: Seq<char>| t.contains(k) ==> m1[k] == m2[k]) ==> t.fold(0int, f1) == t.fold(
            0int,
            f2,
        );
    assert(pred(Set::<Seq<char>>::empty())) by {
        lemma_fold_empty(0int, f1);
        lemma_fold_empty(0int, f2);
    }
    assert forall|t: Set<Seq<char>>, a: Seq<char>|
        pred(t) && t.finite() && !t.contains(a) implies #[trigger] pred(t.insert(a)) by {
        if forall|k: Seq<char>| t.insert(a).contains(k) ==> m1[k] == m2[k] {
            assert(forall|k: Seq<char>| t.contains(k) ==> m1[k] == m2[k]);
            assert(t.insert(a).contains(a));
            lemma_fold_insert(t, 0int, f1, a);
            lemma_fold_insert(t, 0int, f2, a);
        }
    }
    lemma_finite_set_induct(s, pred);
}

/// Writing one balance moves the total supply by the difference
/// between the new value and what that account read before.
proof fn lemma_supply_insert(m: Map<Seq<char>, u64>, key: Seq<char>, v: u64)
    requires
        m.dom().finite(),
    ensures
        total_supply(m.insert(key, v)) == total_supply(m) - stored_or_zero(m, key) + v,
{
    let m0 = m.remove(key);
    let mi = m.insert(key, v);
    let f0 = |acc: int, k: Seq<char>| acc + m0[k];
    let fi = |acc: int, k: Seq<char>| acc + mi[k];
    let fm = |acc: int, k: Seq<char>| acc + m[k];
    assert(is_fun_commutative(f0));
    assert(is_fun_commutative(fi));
    assert(is_fun_commutative(fm));
    assert(m0.dom() =~= m.dom().remove(key));
    assert(m0.dom().finite());
    assert(!m0.dom().contains(key));
    assert(mi.dom() =~= m0.dom().insert(key));
    lemma_fold_insert(m0.dom(), 0int, fi, key);
    lemma_supply_fold_congruent(mi, m0, m0.dom());
    assert(total_supply(mi) == total_supply(m0) + v);
    if m.dom().contains(key) {
        assert(m.dom() =~= m0.dom().insert(key));
        lemma_fold_insert(m0.dom(), 0int, fm, key);
        lemma_supply_fold_congruent(m, m0, m0.dom());
        assert(total_supply(m) == total_supply(m0) + m[key]);
    } else {
        assert(m0 =~= m);
    }
}

/// Law: a successful transfer between distinct accounts conserves the
/// total supply.
pub proof fn lemma_transfer_conserves_supply(
    m: Map<Seq<char>, u64>,
    from: Seq<char>,
    to: Seq<char>,
    amount: u64,
)
    requires
        m.dom().finite(),
        from != to,
        amount <= stored_or_zero(m, from),
        stored_or_zero(m, to) + amount <= u64::MAX,
    ensures
        total_supply(transfer_updated(m, from, to, amount)) == total_supply(m),
{
    let debited = (stored_or_zero(m, from) - amount) as u64;
    let credited = (stored_or_zero(m, to) + amount) as u64;
    let m1 = m.insert(from, debited);
    lemma_supply_insert(m, from, debited);
    assert(m1.dom() =~= m.dom().insert(from));
    lemma_supply_insert(m1, to, credited);
    assert(stored_or_zero(m1, to) == stored_or_zero(m, to));
}

/// The balances module. Its view is the ledger contents; an absent key
/// reads as balance zero.
#[derive(Debug)]
pub struct Pallet {
    balances: AccountMap,
}

impl View for Pallet {
    type V = Map<Seq<char>, u64>;

    closed spec fn view(&self) -> Map<Seq<char>, u64> {
        self.balances@
    }
}

impl Pallet {
    /// A module with an empty ledger.
    pub fn new() -> (r: Self)
        ensures
            r@ == Map::<Seq<char>, u64>::empty(),
    {
        Pallet { balances: AccountMap::new() }
    }

    /// Every reachable ledger holds finitely many accounts, so its
    /// total supply is defined.
    pub proof fn lemma_finite_dom(&self)
        ensures
            self@.dom().finite(),
    {
        self.balances.lemma_finite_dom();
    }

    /// Unconditionally associates `amount` with `who`, replacing any
    /// prior value. Setting zero leaves the key present.
    pub fn set_balance(&mut self, who: &AccountId, amount: Balance)
        ensures
            final(self)@ == old(self)@.insert(who@, amount),
    {
        self.balances.set(who, amount);
    }

    /// The balance of `who`, or zero when `who` is absent.
    /// Observation-pure: the result is a function of the ledger alone,
    /// and a miss inserts nothing.
    pub fn balance(&self, who: &AccountId) -> (r: Balance)
        ensures
            r == stored_or_zero(self@, who@),
    {
        match self.balances.get(who) {
            Some(v) => v,
            None => 0,
        }
    }

    /// Atomic debit-then-credit. Succeeds exactly when the debit stays
    /// non-negative and the credit stays in range; a transfer to the
    /// source itself needs only sufficiency and is a no-op. On any
    /// error the ledger is left exactly as it was.
    pub fn transfer(
        &mut self,
        caller: AccountId,
        to: AccountId,
        amount: Balance,
    ) -> (r: Result<(), TransferError>)
        ensures
            r is Ok <==> (amount <= stored_or_zero(old(self)@, caller@) && (caller@ == to@
                || stored_or_zero(old(self)@, to@) + amount <= u64::MAX)),
            r == Err::<(), TransferError>(TransferError::InsufficientBalance) <==> amount
                > stored_or_zero(old(self)@, caller@),
            r == Err::<(), TransferError>(TransferError::BalanceOverflow) <==> (amount
                <= stored_or_zero(old(self)@, caller@) && caller@ != to@ && stored_or_zero(
                old(self)@,
                to@,
            ) + amount > u64::MAX),
            r is Err ==> final(self)@ == old(self)@,
            r is Ok && caller@ == to@ ==> final(self)@ == old(self)@,
            r is Ok && caller@ != to@ ==> final(self)@ == transfer_updated(
                old(self)@,
                caller@,
                to@,
                amount,
            ),
    {
        let caller_balance = self.balance(&caller);
        let new_caller_balance = match caller_balance.checked_sub(amount) {
            Some(v) => v,
            None => {
                return Err(TransferError::InsufficientBalance);
            },
        };
        if caller == to {
            return Ok(());
        }
        let to_balance = self.balance(&to);
        let new_to_balance = match to_balance.checked_add(amount) {
            Some(v) => v,
            None => {
                return Err(TransferError::BalanceOverflow);
            },
        };
        self.set_balance(&caller, new_caller_balance);
        self.set_balance(&to, new_to_balance);
        Ok(())
    }
}

/// Law: in a fresh ledger every account reads as balance zero.
pub proof fn lemma_fresh_balance_zero(who: Seq<char>)
    ensures
        stored_or_zero(Map::<Seq<char>, u64>::empty(), who) == 0,
{
}

/// Law: after a balance is set, that account reads the new value, and
/// every other account reads what it read before.
pub proof fn lemma_set_balance_effect(
    m: Map<Seq<char>, u64>,
    who: Seq<char>,
    amount: u64,
    other: Seq<char>,
)
    requires
        other != who,
    ensures
        stored_or_zero(m.insert(who, amount), who) == amount,
        stored_or_zero(m.insert(who, amount), other) == stored_or_zero(m, other),
{
}

/// Law: a successful transfer between distinct accounts debits the
/// source by the amount, credits the destination by the amount, and
/// changes no other account.
pub proof fn lemma_transfer_effect(
    m: Map<Seq<char>, u64>,
    from: Seq<char>,
    to: Seq<char>,
    amount: u64,
    other: Seq<char>,
)
    requires
        from != to,
        amount <= stored_or_zero(m, from),
        stored_or_zero(m, to) + amount <= u64::MAX,
        other != from,
        other != to,
    ensures
        stored_or_zero(transfer_updated(m, from, to, amount), from) == stored_or_zero(m, from)
            - amount,
        stored_or_zero(transfer_updated(m, from, to, amount), to) == stored_or_zero(m, to)
            + amount,
        stored_or_zero(transfer_updated(m, from, to, amount), other) == stored_or_zero(m, other),
{
}

} // verus!
