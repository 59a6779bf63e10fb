//! A small verified map from account identifiers to `u64` quantities,
//! backed by a vector of entries with pairwise-distinct keys.
//!
//! Both state modules store their per-account data in an [`AccountMap`];
//! its view is a `Map<Seq<char>, u64>`, and the shared convention that a
//! missing key denotes the quantity zero is captured by [`stored_or_zero`].

use vstd::prelude::*;

verus! {

use crate::AccountId;

/// The mathematical contents of an entry sequence: later entries win,
/// though well-formed maps never hold two entries with the same key.
pub open spec fn map_of(s: Seq<(AccountId, u64)>) -> Map<Seq<char>, u64>
    decreases s.len(),
{
    if s.len() == 0 {
        Map::<Seq<char>, u64>::empty()
    } else {
        map_of(s.drop_last()).insert(s.last().0@, s.last().1)
    }
}

/// Keys are pairwise distinct.
pub open spec fn unique_keys(s: Seq<(AccountId, u64)>) -> bool {
    forall|i: int, j: int| 0 <= i < j < s.len() ==> s[i].0@ != s[j].0@
}

/// The stored value under `k`, or zero when `k` is absent: the shared
/// reading of both the ledger and the nonce table.
pub open spec fn stored_or_zero(m: Map<Seq<char>, u64>, k: Seq<char>) -> u64 {
    if m.contains_key(k) {
        m[k]
    } else {
        0
    }
}

/// A key is in the contents exactly when some entry carries it.
proof fn lemma_map_of_domain(s: Seq<(AccountId, u64)>, k: Seq<char>)
    ensures
        map_of(s).contains_key(k) <==> exists|i: int| 0 <= i < s.len() && s[i].0@ == k,
    decreases s.len(),
{
    if s.len() == 0 {
    } else {
        lemma_map_of_domain(s.drop_last(), k);
        if s.last().0@ == k {
            assert(s[s.len() - 1].0@ == k);
        } else {
            if exists|i: int| 0 <= i < s.len() && s[i].0@ == k {
                let i = choose|i: int| 0 <= i < s.len() && s[i].0@ == k;
                assert(s.drop_last()[i].0@ == k);
            }
            if exists|i: int| 0 <= i < s.drop_last().len() && s.drop_last()[i].0@ == k {
                let i = choose|i: int| 0 <= i < s.drop_last().len() && s.drop_last()[i].0@ == k;
                assert(s[i].0@ == k);
            }
        }
    }
}

/// With distinct keys, the entry at index `i` gives the value stored
/// under its key.
proof fn lemma_map_of_index(s: Seq<(AccountId, u64)>, i: int)
    requires
        unique_keys(s),
        0 <= i < s.len(),
    ensures
        map_of(s).contains_key(s[i].0@),
        map_of(s)[s[i].0@] == s[i].1,
    decreases s.len(),
{
    if i == s.len() - 1 {
    } else {
        assert(unique_keys(s.drop_last()));
        assert(s.drop_last()[i] == s[i]);
        lemma_map_of_index(s.drop_last(), i);
        assert(s[i].0@ != s.last().0@);
    }
}

/// Replacing the entry that carries a key rewrites exactly that key's
/// value in the contents.
proof fn lemma_map_of_update(s: Seq<(AccountId, u64)>, i: int, e: (AccountId, u64))
    requires
        unique_keys(s),
        0 <= i < s.len(),
        e.0@ == s[i].0@,
    ensures
        unique_keys(s.update(i, e)),
        map_of(s.update(i, e)) == map_of(s).insert(e.0@, e.1),
    decreases s.len(),
{
    let t = s.update(i, e);
    assert(unique_keys(t)) by {
        assert(forall|p: int, q: int| 0 <= p < q < t.len() ==> t[p].0@ != t[q].0@) by {
            assert(forall|p: int| 0 <= p < t.len() ==> t[p].0@ == s[p].0@);
        }
    }
    if i == s.len() - 1 {
        assert(t.drop_last() =~= s.drop_last());
        assert(t.last() == e);
        assert(map_of(t) == map_of(s.drop_last()).insert(e.0@, e.1));
        assert(map_of(s).insert(e.0@, e.1) =~= map_of(s.drop_last()).insert(e.0@, e.1));
    } else {
        assert(unique_keys(s.drop_last()));
        assert(s.drop_last()[i] == s[i]);
        lemma_map_of_update(s.drop_last(), i, e);
        assert(t.drop_last() =~= s.drop_last().update(i, e));
        assert(t.last() == s.last());
        assert(map_of(t) == map_of(s.drop_last()).insert(e.0@, e.1).insert(s.last().0@, s.last().1));
        assert(s[i].0@ != s.last().0@);
        assert(map_of(s.drop_last()).insert(e.0@, e.1).insert(s.last().0@, s.last().1)
            =~= map_of(s.drop_last()).insert(s.last().0@, s.last().1).insert(e.0@, e.1));
    }
}

/// The contents of an entry sequence form a finite map.
pub proof fn lemma_map_of_finite(s: Seq<(AccountId, u64)>)
    ensures
        map_of(s).dom().finite(),
    decreases s.len(),
{
    if s.len() > 0 {
        lemma_map_of_finite(s.drop_last());
    }
}

/// Map from account identifiers to `u64` quantities with
/// pairwise-distinct keys.
#[derive(Debug)]
pub struct AccountMap {
    entries: Vec<(AccountId, u64)>,
}

impl View for AccountMap {
    type V = Map<Seq<char>, u64>;

    closed spec fn view(&self) -> Map<Seq<char>, u64> {
        map_of(self.entries@)
    }
}

impl AccountMap {
    #[verifier::type_invariant]
    spec fn wf(self) -> bool {
        unique_keys(self.entries@)
    }

    /// An empty map.
    pub fn new() -> (r: Self)
        ensures
            r@ == Map::<Seq<char>, u64>::empty(),
    {
        AccountMap { entries: Vec::new() }
    }

    /// The value stored under `who`, if any. Observation-pure: a miss
    /// inserts nothing.
    pub fn get(&self, who: &AccountId) -> (r: Option<u64>)
        ensures
            r == (if self@.contains_key(who@) {
                Some(self@[who@])
            } else {
                None::<u64>
            }),
    {
        proof {
            use_type_invariant(&*self);
        }
        let n = self.entries.len();
        let mut i: usize = 0;
        while i < n
            invariant
                n == self.entries@.len(),
                unique_keys(self.entries@),
                0 <= i <= n,
                forall|j: int| 0 <= j < i ==> self.entries@[j].0@ != who@,
            decreases n - i,
        {
            if self.entries[i].0 == *who {
                proof {
                    lemma_map_of_index(self.entries@, i as int);
                }
                return Some(self.entries[i].1);
            }
            i = i + 1;
        }
        proof {
            lemma_map_of_domain(self.entries@, who@);
        }
        None
    }

    /// The contents of any reachable map are finite.
    pub proof fn lemma_finite_dom(&self)
        ensures
            self@.dom().finite(),
    {
        lemma_map_of_finite(self.entries@);
    }

    /// Associates `value` with `who`, replacing any prior entry.
    pub fn set(&mut self, who: &AccountId, value: u64)
        ensures
            final(self)@ == old(self)@.insert(who@, value),
    {
        proof {
            use_type_invariant(&*self);
        }
        let mut entries: Vec<(AccountId, u64)> = Vec::new();
        std::mem::swap(&mut entries, &mut self.entries);
        let ghost s = entries@;
        let n = entries.len();
        let mut i: usize = 0;
        while i < n
            invariant
                entries@ == s,
                old(self)@ == map_of(s),
                n == s.len(),
                unique_keys(s),
                0 <= i <= n,
                forall|j: int| 0 <= j < i ==> s[j].0@ != who@,
            decreases n - i,
        {
            if entries[i].0 == *who {
                entries.set(i, (who.clone(), value));
                proof {
                    lemma_map_of_update(s, i as int, entries@[i as int]);
                }
                self.entries = entries;
                return;
            }
            i = i + 1;
        }
        entries.push((who.clone(), value));
        proof {
            assert(entries@.drop_last() =~= s);
            assert(unique_keys(entries@)) by {
                assert(forall|j: int| 0 <= j < s.len() ==> entries@[j].0@ != who@);
            }
        }
        self.entries = entries;
    }
}

} // verus!
