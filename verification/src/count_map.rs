//! Sparse per-timestamp signed delta ledgers, the accounting primitive of
//! progress tracking.

use vstd::prelude::*;
use crate::timestamp::Timestamp;

verus! {

/// Net sum at timestamp `t` of a sequence of (timestamp, delta) pairs.
pub open spec fn net_sum(s: Seq<(Timestamp, int)>, t: Timestamp) -> int
    decreases s.len(),
{
    if s.len() == 0 {
        0
    } else {
        (if s.first().0 == t {
            s.first().1
        } else {
            0
        }) + net_sum(s.drop_first(), t)
    }
}

/// Net sum at timestamp `t` of the stored entries of a ledger.
pub open spec fn entries_sum(s: Seq<(Timestamp, i64)>, t: Timestamp) -> int
    decreases s.len(),
{
    if s.len() == 0 {
        0
    } else {
        entries_sum(s.drop_last(), t) + (if s.last().0 == t {
            s.last().1 as int
        } else {
            0
        })
    }
}

proof fn lemma_entries_sum_concat(a: Seq<(Timestamp, i64)>, b: Seq<(Timestamp, i64)>, t: Timestamp)
    ensures
        entries_sum(a + b, t) == entries_sum(a, t) + entries_sum(b, t),
    decreases b.len(),
{
    if b.len() == 0 {
        assert(a + b =~= a);
    } else {
        assert((a + b).drop_last() =~= a + b.drop_last());
        assert((a + b).last() == b.last());
        lemma_entries_sum_concat(a, b.drop_last(), t);
    }
}

/// When no entry carries key `t`, the sum at `t` is zero.
proof fn lemma_entries_sum_absent(s: Seq<(Timestamp, i64)>, t: Timestamp)
    requires
        forall|i: int| 0 <= i < s.len() ==> s[i].0 != t,
    ensures
        entries_sum(s, t) == 0,
    decreases s.len(),
{
    if s.len() > 0 {
        lemma_entries_sum_absent(s.drop_last(), t);
    }
}

/// With pairwise distinct keys, the sum at the key of entry `i` is exactly
/// that entry's value.
proof fn lemma_entries_sum_distinct(s: Seq<(Timestamp, i64)>, i: int)
    requires
        0 <= i < s.len(),
        forall|j: int, k: int| 0 <= j < k < s.len() ==> s[j].0 != s[k].0,
    ensures
        entries_sum(s, s[i].0) == s[i].1 as int,
    decreases s.len(),
{
    if i == s.len() - 1 {
        lemma_entries_sum_absent(s.drop_last(), s[i].0);
    } else {
        lemma_entries_sum_distinct(s.drop_last(), i);
    }
}

/// With pairwise distinct keys, the sum at any timestamp is either zero or a
/// single stored value, so it fits the count word.
proof fn lemma_entries_sum_range(s: Seq<(Timestamp, i64)>, t: Timestamp)
    requires
        forall|j: int, k: int| 0 <= j < k < s.len() ==> s[j].0 != s[k].0,
    ensures
        i64::MIN as int <= entries_sum(s, t) <= i64::MAX as int,
    decreases s.len(),
{
    if s.len() == 0 {
    } else if s.last().0 == t {
        lemma_entries_sum_absent(s.drop_last(), t);
    } else {
        lemma_entries_sum_range(s.drop_last(), t);
    }
}

/// A sparse ledger mapping timestamps to signed counts.  A timestamp with no
/// stored entry implicitly counts zero, and entries whose net reaches zero are
/// purged, so `pop` never surfaces a zero-net timestamp.
pub struct CountMap {
    entries: Vec<(Timestamp, i64)>,
}

impl CountMap {
    /// Internal invariant: stored keys are pairwise distinct and stored
    /// counts are non-zero.
    pub closed spec fn wf(self) -> bool {
        &&& forall|j: int, k: int|
            0 <= j < k < self.entries@.len() ==> self.entries@[j].0 != self.entries@[k].0
        &&& forall|j: int| 0 <= j < self.entries@.len() ==> self.entries@[j].1 != 0
    }

    /// The count the ledger holds at `t` (zero when `t` is absent).
    pub closed spec fn count(self, t: Timestamp) -> int {
        entries_sum(self.entries@, t)
    }

    /// Number of stored entries; a drain measure for callers' loops.
    pub closed spec fn size(self) -> nat {
        self.entries@.len()
    }

    /// Whether every timestamp nets to zero.
    pub open spec fn spec_is_empty(self) -> bool {
        forall|t: Timestamp| self.count(t) == 0
    }

    pub fn new() -> (r: CountMap)
        ensures
            r.wf(),
            r.size() == 0,
            forall|t: Timestamp| r.count(t) == 0,
    {
        CountMap { entries: Vec::new() }
    }

    /// Merges an additive delta for `key` into the ledger, creating the entry
    /// when absent and purging it when the net reaches zero.
    pub fn update(&mut self, key: Timestamp, delta: i64)
        requires
            old(self).wf(),
            i64::MIN as int <= old(self).count(key) + delta <= i64::MAX as int,
        ensures
            final(self).wf(),
            final(self).count(key) == old(self).count(key) + delta,
            forall|t: Timestamp| t != key ==> final(self).count(t) == old(self).count(t),
    {
        let ghost entries0 = self.entries@;
        let mut i: usize = 0;
        while i < self.entries.len()
            invariant
                entries0 == old(self).entries@,
                self.entries@ == entries0,
                0 <= i <= entries0.len(),
                forall|j: int| 0 <= j < i ==> entries0[j].0 != key,
                forall|j: int, k: int| 0 <= j < k < entries0.len() ==> entries0[j].0 != entries0[k].0,
                forall|j: int| 0 <= j < entries0.len() ==> entries0[j].1 != 0,
                i64::MIN as int <= entries_sum(entries0, key) + delta <= i64::MAX as int,
            decreases entries0.len() - i,
        {
            if self.entries[i].0 == key {
                proof {
                    lemma_entries_sum_distinct(entries0, i as int);
                }
                let v = self.entries[i].1;
                let ghost pre = entries0.subrange(0, i as int);
                let ghost mid = entries0.subrange(i as int, i as int + 1);
                let ghost post = entries0.subrange(i as int + 1, entries0.len() as int);
                proof {
                    assert(entries0 =~= pre + mid + post);
                    lemma_entries_sum_concat(pre + mid, post, key);
                    lemma_entries_sum_concat(pre, mid, key);
                    assert(forall|t: Timestamp|
                        entries_sum(entries0, t) == entries_sum(pre, t) + entries_sum(mid, t)
                            + entries_sum(post, t)) by {
                        assert forall|t: Timestamp|
                            entries_sum(entries0, t) == entries_sum(pre, t) + entries_sum(mid, t)
                                + entries_sum(post, t) by {
                            lemma_entries_sum_concat(pre + mid, post, t);
                            lemma_entries_sum_concat(pre, mid, t);
                        }
                    }
                    assert(entries_sum(mid, key) == v as int) by {
                        assert(mid.len() == 1);
                        assert(mid.last() == entries0[i as int]);
                        assert(mid.drop_last() =~= Seq::<(Timestamp, i64)>::empty());
                        assert(entries_sum(mid.drop_last(), key) == 0);
                    }
                }
                let w = v + delta;
                if w == 0 {
                    // net reaches zero: purge the entry
                    self.entries.remove(i);
                    proof {
                        assert(self.entries@ =~= pre + post);
                        assert forall|t: Timestamp|
                            entries_sum(self.entries@, t) == entries_sum(pre, t) + entries_sum(
                                post,
                                t,
                            ) by {
                            lemma_entries_sum_concat(pre, post, t);
                        }
                        assert forall|t: Timestamp| t != key implies entries_sum(mid, t) == 0 by {
                            lemma_entries_sum_absent(mid, t);
                        }
                    }
                    return ;
                }
                self.entries.set(i, (key, w));
                proof {
                    let ghost mid2 = self.entries@.subrange(i as int, i as int + 1);
                    assert(self.entries@ =~= pre + mid2 + post);
                    assert forall|t: Timestamp|
                        entries_sum(self.entries@, t) == entries_sum(pre, t) + entries_sum(mid2, t)
                            + entries_sum(post, t) by {
                        lemma_entries_sum_concat(pre + mid2, post, t);
                        lemma_entries_sum_concat(pre, mid2, t);
                    }
                    assert forall|t: Timestamp| entries_sum(mid2, t) == (if t == key {
                        w as int
                    } else {
                        0
                    }) by {
                        assert(mid2.len() == 1);
                        assert(mid2.last() == (key, w));
                        assert(mid2.drop_last() =~= Seq::<(Timestamp, i64)>::empty());
                        assert(entries_sum(mid2.drop_last(), t) == 0);
                    }
                    assert forall|t: Timestamp| t != key implies entries_sum(mid, t) == 0 by {
                        lemma_entries_sum_absent(mid, t);
                    }
                }
                return ;
            }
            i += 1;
        }
        // key is absent: count(key) is zero
        proof {
            lemma_entries_sum_absent(entries0, key);
        }
        if delta != 0 {
            self.entries.push((key, delta));
            proof {
                assert(self.entries@.drop_last() =~= entries0);
            }
        }
    }

    /// Removes and returns one arbitrary (timestamp, non-zero count) entry, or
    /// reports that every timestamp nets to zero.  Callers must not rely on
    /// any ordering across calls.
    pub fn pop(&mut self) -> (r: Option<(Timestamp, i64)>)
        requires
            old(self).wf(),
        ensures
            final(self).wf(),
            match r {
                None => {
                    &&& old(self).spec_is_empty()
                    &&& final(self).spec_is_empty()
                    &&& final(self).size() == 0
                },
                Some(e) => {
                    &&& e.1 != 0
                    &&& e.1 as int == old(self).count(e.0)
                    &&& final(self).count(e.0) == 0
                    &&& forall|t: Timestamp| t != e.0 ==> final(self).count(t) == old(self).count(t)
                    &&& final(self).size() < old(self).size()
                },
            },
    {
        let ghost entries0 = self.entries@;
        let r = self.entries.pop();
        match r {
            None => {
                proof {
                    assert(entries0.len() == 0);
                    assert forall|t: Timestamp| entries_sum(entries0, t) == 0 by {
                        lemma_entries_sum_absent(entries0, t);
                    }
                }
                None
            },
            Some(e) => {
                proof {
                    assert(self.entries@ =~= entries0.drop_last());
                    assert(e == entries0.last());
                    lemma_entries_sum_distinct(entries0, entries0.len() - 1);
                    lemma_entries_sum_absent(entries0.drop_last(), e.0);
                }
                Some(e)
            },
        }
    }

    /// Whether any non-zero entry remains.
    pub fn is_empty(&self) -> (r: bool)
        requires
            self.wf(),
        ensures
            r == self.spec_is_empty(),
    {
        if self.entries.len() == 0 {
            proof {
                assert forall|t: Timestamp| entries_sum(self.entries@, t) == 0 by {
                    lemma_entries_sum_absent(self.entries@, t);
                }
            }
            true
        } else {
            proof {
                lemma_entries_sum_distinct(self.entries@, 0);
                assert(self.count(self.entries@[0].0) == self.entries@[0].1 as int);
                assert(self.entries@[0].1 != 0);
                assert(!self.spec_is_empty());
            }
            false
        }
    }
}

/// A well-formed ledger's count always fits the signed count word: at any
/// timestamp it is either zero or the single stored entry for that timestamp.
pub proof fn lemma_count_in_range(m: CountMap, t: Timestamp)
    requires
        m.wf(),
    ensures
        i64::MIN as int <= m.count(t) <= i64::MAX as int,
{
    lemma_entries_sum_range(m.entries@, t);
}

/// Counter ledger law, accumulation half: across any chain of `update` steps,
/// the count at each timestamp moves by exactly the algebraic sum of that
/// timestamp's deltas — `update` neither loses nor double-counts a delta.
/// `states` are the ledger values around the steps and `updates[i]` is the
/// (key, delta) pair merged by step `i`.
pub proof fn lemma_updates_accumulate(
    states: Seq<CountMap>,
    updates: Seq<(Timestamp, int)>,
    t: Timestamp,
)
    requires
        states.len() == updates.len() + 1,
        forall|i: int|
            0 <= i < updates.len() ==> states[i + 1].count(updates[i].0) == states[i].count(
                updates[i].0,
            ) + updates[i].1,
        forall|i: int, u: Timestamp|
            0 <= i < updates.len() && u != updates[i].0 ==> states[i + 1].count(u)
                == #[trigger] states[i].count(u),
    ensures
        states.last().count(t) == states.first().count(t) + net_sum(updates, t),
    decreases updates.len(),
{
    if updates.len() == 0 {
    } else {
        let tail_states = states.drop_first();
        let tail_updates = updates.drop_first();
        assert forall|i: int|
            0 <= i < tail_updates.len() implies tail_states[i + 1].count(tail_updates[i].0)
            == tail_states[i].count(tail_updates[i].0) + tail_updates[i].1 by {
            assert(tail_states[i + 1] == states[i + 2]);
            assert(tail_states[i] == states[i + 1]);
            assert(tail_updates[i] == updates[i + 1]);
        }
        assert forall|i: int, u: Timestamp|
            0 <= i < tail_updates.len() && u != tail_updates[i].0 implies tail_states[i + 1].count(
                u,
            ) == #[trigger] tail_states[i].count(u) by {
            assert(tail_states[i + 1] == states[i + 2]);
            assert(tail_states[i] == states[i + 1]);
            assert(tail_updates[i] == updates[i + 1]);
        }
        lemma_updates_accumulate(tail_states, tail_updates, t);
        assert(states.last() == tail_states.last());
        assert(tail_states.first() == states[1]);
    }
}

/// Counter ledger law, drain half: popping until empty recovers, per
/// timestamp, exactly the net the ledger held, and no popped pair carries a
/// zero count.  `states` are the ledger values around the pops and `pops[i]`
/// is the pair returned by pop `i`; the chain ends on an empty ledger.
pub proof fn lemma_drain_recovers_net(
    states: Seq<CountMap>,
    pops: Seq<(Timestamp, int)>,
    t: Timestamp,
)
    requires
        states.len() == pops.len() + 1,
        forall|i: int|
            0 <= i < pops.len() ==> pops[i].1 != 0 && pops[i].1 == states[i].count(pops[i].0)
                && states[i + 1].count(pops[i].0) == 0,
        forall|i: int, u: Timestamp|
            0 <= i < pops.len() && u != pops[i].0 ==> states[i + 1].count(u)
                == #[trigger] states[i].count(u),
        states.last().spec_is_empty(),
    ensures
        net_sum(pops, t) == states.first().count(t),
    decreases pops.len(),
{
    if pops.len() == 0 {
        assert(states.first() == states.last());
    } else {
        let tail_states = states.drop_first();
        let tail_pops = pops.drop_first();
        assert forall|i: int|
            0 <= i < tail_pops.len() implies tail_pops[i].1 != 0 && tail_pops[i].1
            == tail_states[i].count(tail_pops[i].0) && tail_states[i + 1].count(tail_pops[i].0)
            == 0 by {
            assert(tail_states[i + 1] == states[i + 2]);
            assert(tail_states[i] == states[i + 1]);
            assert(tail_pops[i] == pops[i + 1]);
        }
        assert forall|i: int, u: Timestamp|
            0 <= i < tail_pops.len() && u != tail_pops[i].0 implies tail_states[i + 1].count(
                u,
            ) == #[trigger] tail_states[i].count(u) by {
            assert(tail_states[i + 1] == states[i + 2]);
            assert(tail_states[i] == states[i + 1]);
            assert(tail_pops[i] == pops[i + 1]);
        }
        assert(tail_states.last() == states.last());
        lemma_drain_recovers_net(tail_states, tail_pops, t);
        assert(tail_states.first() == states[1]);
        if pops.first().0 == t {
            assert(states[1].count(t) == 0);
        }
    }
}

} // verus!
