//! Output ports and counting observers: the fan-out send path.
//!
//! An output port broadcasts every message it is given to each registered
//! observer.  An observer sits on one graph edge: it charges the counter map
//! of that edge (held in the graph builder's arena and named here by index)
//! with the message's timestamp, and hands the message itself onward to the
//! consumer on the edge.

use vstd::prelude::*;
use crate::count_map::CountMap;
use crate::timestamp::Timestamp;

verus! {

/// A send-path interceptor bound to one edge.  `counter` names the edge's
/// counter map in the graph builder's arena; `forwarded` holds the messages
/// handed onward to the edge's consumer, in send order.
pub struct Observer<D> {
    /// Arena index of the counter map this observer charges.
    pub counter: usize,
    /// Messages delivered onward on this edge, oldest first.
    pub forwarded: Vec<(Timestamp, D)>,
}

impl<D> Observer<D> {
    pub fn new(counter: usize) -> (r: Observer<D>)
        ensures
            r.counter == counter,
            r.forwarded@.len() == 0,
    {
        Observer { counter, forwarded: Vec::new() }
    }
}

/// How many observers in `obs` charge the counter with arena index `c`.
pub open spec fn observers_bound<D>(obs: Seq<Observer<D>>, c: int) -> int
    decreases obs.len(),
{
    if obs.len() == 0 {
        0
    } else {
        observers_bound(obs.drop_last(), c) + (if obs.last().counter == c {
            1int
        } else {
            0int
        })
    }
}

proof fn lemma_observers_bound_nonneg<D>(obs: Seq<Observer<D>>, c: int)
    ensures
        0 <= observers_bound(obs, c) <= obs.len(),
    decreases obs.len(),
{
    if obs.len() > 0 {
        lemma_observers_bound_nonneg(obs.drop_last(), c);
    }
}

proof fn lemma_observers_bound_prefix<D>(obs: Seq<Observer<D>>, c: int, k: int)
    requires
        0 <= k <= obs.len(),
    ensures
        observers_bound(obs.subrange(0, k), c) <= observers_bound(obs, c),
    decreases obs.len() - k,
{
    if k == obs.len() {
        assert(obs.subrange(0, k) =~= obs);
    } else {
        assert(obs.subrange(0, k + 1).drop_last() =~= obs.subrange(0, k));
        lemma_observers_bound_prefix(obs, c, k + 1);
    }
}

/// A fan-out broadcast point for one logical output.  Every message sent
/// through the port reaches each registered observer exactly once.
pub struct OutputPort<D> {
    /// The registered observers, in registration order.
    pub observers: Vec<Observer<D>>,
}

impl<D: Copy> OutputPort<D> {
    pub fn new() -> (r: OutputPort<D>)
        ensures
            r.observers@.len() == 0,
    {
        OutputPort { observers: Vec::new() }
    }

    /// Registers a further observer; later sends will also reach it.
    pub fn add_observer(&mut self, observer: Observer<D>)
        ensures
            final(self).observers@ == old(self).observers@.push(observer),
    {
        self.observers.push(observer);
    }

    /// Broadcasts one message at `time` to every registered observer: each
    /// observer forwards the message onward exactly once and charges its own
    /// counter map with one unit at `time`.  Counters not bound to any
    /// observer of this port are untouched.
    pub fn send(&mut self, counters: &mut Vec<CountMap>, time: Timestamp, data: D)
        requires
            forall|j: int|
                0 <= j < old(self).observers@.len() ==> (
                #[trigger] old(self).observers@[j].counter as int) < old(counters)@.len(),
            forall|c: int| 0 <= c < old(counters)@.len() ==> (#[trigger] old(counters)@[c]).wf(),
            forall|c: int|
                0 <= c < old(counters)@.len() ==> #[trigger] old(counters)@[c].count(time)
                    + observers_bound(old(self).observers@, c) <= i64::MAX as int,
        ensures
            final(self).observers@.len() == old(self).observers@.len(),
            forall|j: int|
                0 <= j < old(self).observers@.len()
                    ==> (#[trigger] final(self).observers@[j]).counter
                    == old(self).observers@[j].counter,
            forall|j: int|
                0 <= j < old(self).observers@.len()
                    ==> (#[trigger] final(self).observers@[j]).forwarded@
                    == old(self).observers@[j].forwarded@.push((time, data)),
            final(counters)@.len() == old(counters)@.len(),
            forall|c: int| 0 <= c < old(counters)@.len() ==> (#[trigger] final(counters)@[c]).wf(),
            forall|c: int|
                0 <= c < old(counters)@.len()
                    ==> (#[trigger] final(counters)@[c]).count(time)
                    == old(counters)@[c].count(time) + observers_bound(old(self).observers@, c),
            forall|c: int, t: Timestamp|
                0 <= c < old(counters)@.len() && t != time
                    ==> (#[trigger] final(counters)@[c].count(t))
                    == old(counters)@[c].count(t),
    {
        let ghost obs0 = self.observers@;
        let ghost counters0 = counters@;
        let n = self.observers.len();
        let mut j: usize = 0;
        while j < n
            invariant
                obs0 == old(self).observers@,
                counters0 == old(counters)@,
                n == obs0.len(),
                0 <= j <= n,
                self.observers@.len() == n,
                counters@.len() == counters0.len(),
                forall|k: int|
                    0 <= k < n ==> (#[trigger] obs0[k].counter as int) < counters0.len(),
                forall|c: int| 0 <= c < counters0.len() ==> (#[trigger] counters0[c]).wf(),
                forall|c: int|
                    0 <= c < counters0.len() ==> #[trigger] counters0[c].count(time)
                        + observers_bound(obs0, c) <= i64::MAX as int,
                forall|k: int|
                    j <= k < n ==> #[trigger] self.observers@[k] == obs0[k],
                forall|k: int|
                    0 <= k < j ==> (#[trigger] self.observers@[k]).counter == obs0[k].counter
                        && self.observers@[k].forwarded@ == obs0[k].forwarded@.push((time, data)),
                forall|c: int| 0 <= c < counters0.len() ==> (#[trigger] counters@[c]).wf(),
                forall|c: int|
                    0 <= c < counters0.len() ==> #[trigger] counters@[c].count(time)
                        == counters0[c].count(time) + observers_bound(
                        obs0.subrange(0, j as int),
                        c,
                    ),
                forall|c: int, t: Timestamp|
                    0 <= c < counters0.len() && t != time ==> #[trigger] counters@[c].count(t)
                        == counters0[c].count(t),
            decreases n - j,
        {
            let c = self.observers[j].counter;
            proof {
                lemma_observers_bound_prefix(obs0, c as int, j as int + 1);
                lemma_observers_bound_nonneg(obs0.subrange(0, j as int), c as int);
                crate::count_map::lemma_count_in_range(counters0[c as int], time);
                assert(obs0.subrange(0, j as int + 1).drop_last() =~= obs0.subrange(0, j as int));
                assert(obs0.subrange(0, j as int + 1).last() == obs0[j as int]);
            }
            counters[c].update(time, 1);
            self.observers[j].forwarded.push((time, data));
            proof {
                assert forall|d: int|
                    0 <= d < counters0.len() && d != c implies observers_bound(
                    obs0.subrange(0, j as int + 1),
                    d,
                ) == observers_bound(obs0.subrange(0, j as int), d) by {
                    assert(obs0.subrange(0, j as int + 1).drop_last() =~= obs0.subrange(
                        0,
                        j as int,
                    ));
                }
            }
            j += 1;
        }
        proof {
            assert(obs0.subrange(0, n as int) =~= obs0);
        }
    }
}

/// Number of entries of `times` equal to `u`.
pub open spec fn times_count(times: Seq<Timestamp>, u: Timestamp) -> int
    decreases times.len(),
{
    if times.len() == 0 {
        0
    } else {
        (if times.first() == u {
            1int
        } else {
            0int
        }) + times_count(times.drop_first(), u)
    }
}

/// Conservation on the send path: across any sequence of broadcasts through
/// a port with a fixed observer set, a counter's ledger moves, per timestamp,
/// by exactly one unit per broadcast at that timestamp per observer bound to
/// it — the counters record the sends exactly, with no loss and no
/// double-counting.  `states` are the arena values around the broadcasts and
/// `times[m]` is the timestamp of broadcast `m`.
pub proof fn lemma_sends_accumulate<D>(
    states: Seq<Seq<CountMap>>,
    times: Seq<Timestamp>,
    obs: Seq<Observer<D>>,
    c: int,
    u: Timestamp,
)
    requires
        states.len() == times.len() + 1,
        forall|m: int|
            0 <= m < times.len() ==> (#[trigger] states[m + 1][c].count(times[m]))
                == states[m][c].count(times[m]) + observers_bound(obs, c),
        forall|m: int, t: Timestamp|
            0 <= m < times.len() && t != times[m] ==> (#[trigger] states[m + 1][c].count(t))
                == states[m][c].count(t),
    ensures
        states.last()[c].count(u) == states.first()[c].count(u) + observers_bound(obs, c)
            * times_count(times, u),
    decreases times.len(),
{
    let b = observers_bound(obs, c);
    if times.len() == 0 {
        assert(b * 0 == 0) by (nonlinear_arith);
    } else {
        let tail_states = states.drop_first();
        let tail_times = times.drop_first();
        assert forall|m: int|
            0 <= m < tail_times.len() implies (#[trigger] tail_states[m + 1][c].count(
            tail_times[m],
        )) == tail_states[m][c].count(tail_times[m]) + b by {
            assert(tail_states[m + 1] == states[m + 2]);
            assert(tail_states[m] == states[m + 1]);
            assert(tail_times[m] == times[m + 1]);
        }
        assert forall|m: int, t: Timestamp|
            0 <= m < tail_times.len() && t != tail_times[m] implies (#[trigger] tail_states[m
            + 1][c].count(t)) == tail_states[m][c].count(t) by {
            assert(tail_states[m + 1] == states[m + 2]);
            assert(tail_states[m] == states[m + 1]);
            assert(tail_times[m] == times[m + 1]);
        }
        lemma_sends_accumulate(tail_states, tail_times, obs, c, u);
        assert(tail_states.last() == states.last());
        assert(tail_states.first() == states[1]);
        let k = times_count(tail_times, u);
        if times.first() == u {
            assert(states[1][c].count(u) == states[0][c].count(u) + b);
            assert(b * (k + 1) == b * k + b) by (nonlinear_arith);
        } else {
            assert(states[1][c].count(u) == states[0][c].count(u));
        }
    }
}

} // verus!
