//! The fill de-duplication guard.
//!
//! Every trade is announced by two fill notifications that share one
//! [`FillKey`]. The guard lets the first of each pair through and holds back
//! the second. It keeps the keys of the trades whose second notification is
//! still to come.

use vstd::prelude::*;
use crate::event::FillKey;

verus! {

/// What the guard does with a fill whose key is `key`, when `pending` are the
/// keys it holds: the keys it holds afterwards, and whether the fill is
/// published.
pub open spec fn guard_step(pending: Set<FillKey>, key: FillKey) -> (Set<FillKey>, bool) {
    if pending.contains(key) {
        (pending.remove(key), false)
    } else {
        (pending.insert(key), true)
    }
}

/// The keys of the trades of which exactly one notification has been seen.
pub struct DedupGuard {
    pending: Vec<FillKey>,
}

impl DedupGuard {
    /// The guard is well formed: no key is held twice.
    pub closed spec fn wf(&self) -> bool {
        self.pending@.no_duplicates()
    }

    /// The keys that wait for their second notification.
    pub closed spec fn view(&self) -> Set<FillKey> {
        self.pending@.to_set()
    }

    /// A guard that holds no key, as at the start of the process.
    pub fn new() -> (guard: DedupGuard)
        ensures
            guard.wf(),
            guard@ == Set::<FillKey>::empty(),
    {
        let guard = DedupGuard { pending: Vec::new() };
        assert(guard.pending@.to_set() =~= Set::<FillKey>::empty());
        guard
    }

    /// How many keys wait for their second notification.
    pub fn pending_count(&self) -> (n: usize)
        requires
            self.wf(),
        ensures
            self@.finite(),
            n == self@.len(),
    {
        proof {
            self.pending@.unique_seq_to_set();
            vstd::seq_lib::seq_to_set_is_finite(self.pending@);
        }
        self.pending.len()
    }

    /// Whether `key` waits for its second notification.
    pub fn is_pending(&self, key: &FillKey) -> (held: bool)
        ensures
            held == self@.contains(*key),
    {
        self.position(key).is_some()
    }

    /// Where `key` is held, if it is.
    fn position(&self, key: &FillKey) -> (at: Option<usize>)
        ensures
            match at {
                Some(i) => i < self.pending@.len() && self.pending@[i as int] == *key,
                None => !self.pending@.contains(*key),
            },
    {
        let mut i: usize = 0;
        while i < self.pending.len()
            invariant
                0 <= i <= self.pending@.len(),
                forall|j: int| 0 <= j < i ==> self.pending@[j] != *key,
            decreases self.pending@.len() - i,
        {
            let held = &self.pending[i];
            if held.market_id == key.market_id && held.taker_order_id == key.taker_order_id
                && held.sequence_number_for_trade == key.sequence_number_for_trade {
                return Some(i);
            }
            i = i + 1;
        }
        None
    }

    /// Takes one fill notification with the given key and says whether it is
    /// published. The first notification of a trade is published and its key
    /// kept; the second is held back and the key dropped.
    pub fn observe(&mut self, key: FillKey) -> (publish: bool)
        requires
            old(self).wf(),
        ensures
            final(self).wf(),
            publish == !old(self)@.contains(key),
            final(self)@ == guard_step(old(self)@, key).0,
            publish == guard_step(old(self)@, key).1,
    {
        let ghost before = self.pending@;
        match self.position(&key) {
            Some(i) => {
                self.pending.swap_remove(i);
                proof {
                    let after = self.pending@;
                    let last = before.len() - 1;
                    assert forall|a: int, b: int|
                        0 <= a < after.len() && 0 <= b < after.len() && a != b implies after[a]
                        != after[b] by {
                        let sa = if a == i as int { last } else { a };
                        let sb = if b == i as int { last } else { b };
                        assert(after[a] == before[sa]);
                        assert(after[b] == before[sb]);
                    }
                    assert forall|k: FillKey| after.contains(k) <==> (before.contains(k) && k
                        != key) by {
                        if after.contains(k) {
                            let a = choose|a: int| 0 <= a < after.len() && after[a] == k;
                            let sa = if a == i as int { last } else { a };
                            assert(after[a] == before[sa]);
                            assert(sa != i as int);
                        }
                        if before.contains(k) && k != key {
                            let b = choose|b: int| 0 <= b < before.len() && before[b] == k;
                            assert(b != i as int);
                            if b == last {
                                assert(after[i as int] == k);
                            } else {
                                assert(after[b] == k);
                            }
                        }
                    }
                    assert(after.to_set() =~= before.to_set().remove(key));
                }
                false
            },
            None => {
                self.pending.push(key);
                proof {
                    let after = self.pending@;
                    assert forall|a: int, b: int|
                        0 <= a < after.len() && 0 <= b < after.len() && a != b implies after[a]
                        != after[b] by {
                        if a < before.len() {
                            assert(before.contains(after[a]));
                        }
                        if b < before.len() {
                            assert(before.contains(after[b]));
                        }
                    }
                    assert forall|k: FillKey| after.contains(k) <==> (before.contains(k) || k
                        == key) by {
                        if after.contains(k) {
                            let a = choose|a: int| 0 <= a < after.len() && after[a] == k;
                            if a < before.len() {
                                assert(before[a] == k);
                            }
                        }
                        if before.contains(k) {
                            let b = choose|b: int| 0 <= b < before.len() && before[b] == k;
                            assert(after[b] == k);
                        }
                        if k == key {
                            assert(after[before.len() as int] == k);
                        }
                    }
                    assert(after.to_set() =~= before.to_set().insert(key));
                }
                true
            },
        }
    }
}

/// Of two fills with the same key that follow each other, exactly one is
/// published, whichever comes first and whatever the guard held before, and
/// the guard then holds what it held before.
pub proof fn lemma_pair_publishes_once(pending: Set<FillKey>, key: FillKey)
    ensures
        ({
            let first = guard_step(pending, key);
            let second = guard_step(first.0, key);
            &&& first.1 != second.1
            &&& second.0 == pending
        }),
{
    let first = guard_step(pending, key);
    let second = guard_step(first.0, key);
    assert(second.0 =~= pending);
}

/// A guard that holds nothing publishes the first fill of a trade and then
/// holds exactly its key; it holds back the second fill and is empty again.
pub proof fn lemma_unpaired_then_paired(key: FillKey)
    ensures
        ({
            let first = guard_step(Set::<FillKey>::empty(), key);
            let second = guard_step(first.0, key);
            &&& first.1
            &&& first.0 == set![key]
            &&& first.0.len() == 1
            &&& !second.1
            &&& second.0 == Set::<FillKey>::empty()
        }),
{
    let first = guard_step(Set::<FillKey>::empty(), key);
    let second = guard_step(first.0, key);
    assert(first.0 =~= set![key]);
    assert(second.0 =~= Set::<FillKey>::empty());
    assert(set![key].len() == 1) by {
        assert(Set::<FillKey>::empty().insert(key).len() == 1);
    }
}

/// Fills of other trades leave a pending key alone.
pub proof fn lemma_other_keys_untouched(pending: Set<FillKey>, key: FillKey, other: FillKey)
    requires
        other != key,
    ensures
        guard_step(pending, key).0.contains(other) == pending.contains(other),
{
}

} // verus!
