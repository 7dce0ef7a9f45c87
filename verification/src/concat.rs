//! The reference merge operator: concatenation of streams.
//!
//! A merge scope forwards whatever volume arrives on any input directly to
//! its single output.  Its progress report mirrors each drained (timestamp,
//! delta) pair into both the consumed ledger of the input it arrived on and
//! the produced ledger of the output, so a merge is progress-neutral.

use vstd::prelude::*;
use crate::count_map::net_sum;
use crate::count_map::CountMap;
use crate::graph::{GraphBuilder, Source, Target};
use crate::port::{Observer, OutputPort};
use crate::stream::Stream;
use crate::timestamp::Timestamp;

verus! {

/// Total count at `t` held by the first `k` counter maps named by `handles`
/// in the arena `counters`.
pub open spec fn drained_sum(
    counters: Seq<CountMap>,
    handles: Seq<usize>,
    k: int,
    t: Timestamp,
) -> int
    decreases k,
{
    if k <= 0 {
        0
    } else {
        drained_sum(counters, handles, k - 1, t) + counters[handles[k - 1] as int].count(t)
    }
}

/// The merge scope: one counter map handle per input, naming the ledger the
/// input edge's observer charges and this scope drains.
pub struct ConcatScope {
    /// Arena indices of the per-input counter maps, shared with the
    /// observers wired onto the inputs.
    pub consumed: Vec<usize>,
}

/// What one `pull_internal_progress` call on a merge scope does, relating the
/// counter arena and the caller-supplied reports before (`..0`) and after
/// (`..1`) the call: the drained counters are left empty and every other
/// counter untouched; each input's consumed report grows by exactly what its
/// counter held; the produced report at the single output grows by the total
/// over all inputs; and the call never claims pending internal work.
pub open spec fn pull_post(
    handles: Seq<usize>,
    counters0: Seq<CountMap>,
    counters1: Seq<CountMap>,
    consumed0: Seq<CountMap>,
    consumed1: Seq<CountMap>,
    produced0: Seq<CountMap>,
    produced1: Seq<CountMap>,
    active: bool,
) -> bool {
    &&& !active
    &&& counters1.len() == counters0.len()
    &&& forall|i: int|
        0 <= i < handles.len() ==> counters1[#[trigger] handles[i] as int].spec_is_empty()
    &&& forall|c: int|
        0 <= c < counters0.len() && !handles.contains(c as usize) ==> counters1[c] == #[trigger] counters0[c]
    &&& forall|c: int| 0 <= c < counters1.len() ==> (#[trigger] counters1[c]).wf()
    &&& consumed1.len() == consumed0.len()
    &&& forall|i: int, t: Timestamp|
        0 <= i < handles.len() ==> (#[trigger] consumed1[i].count(t)) == consumed0[i].count(t)
            + counters0[handles[i] as int].count(t)
    &&& forall|i: int| 0 <= i < consumed1.len() ==> (#[trigger] consumed1[i]).wf()
    &&& produced1.len() == produced0.len()
    &&& forall|t: Timestamp|
        (#[trigger] produced1[0].count(t)) == produced0[0].count(t) + drained_sum(
            counters0,
            handles,
            handles.len() as int,
            t,
        )
    &&& produced1.len() > 0 ==> produced1[0].wf()
}

impl ConcatScope {
    /// Handles lie in an arena of `n` counters and are pairwise distinct:
    /// each input edge accounts on a ledger of its own.
    pub open spec fn wf_in(self, n: int) -> bool {
        &&& forall|i: int| 0 <= i < self.consumed@.len() ==> (#[trigger] self.consumed@[i] as int) < n
        &&& forall|i: int, j: int|
            0 <= i < j < self.consumed@.len() ==> self.consumed@[i] != self.consumed@[j]
    }

    pub fn new(consumed: Vec<usize>) -> (r: ConcatScope)
        ensures
            r.consumed@ == consumed@,
    {
        ConcatScope { consumed }
    }

    /// The operator's display name.
    pub fn name(&self) -> (r: String)
        ensures
            r@ == "Concat"@,
    {
        String::from_str("Concat")
    }

    /// Input arity: one per merged stream, fixed at wiring time.
    pub fn inputs(&self) -> (r: u64)
        ensures
            r as int == self.consumed@.len(),
    {
        self.consumed.len() as u64
    }

    /// Output arity: a merge has exactly one output.
    pub fn outputs(&self) -> (r: u64)
        ensures
            r == 1,
    {
        1
    }

    /// A merge is pass-through: it never needs frontier notifications.
    pub fn notify_me(&self) -> (r: bool)
        ensures
            !r,
    {
        false
    }

    /// Drains every input's counter map, mirroring each (timestamp, delta)
    /// pair into that input's consumed report and into the produced report of
    /// the single output, and reports no pending internal work of its own.
    #[verifier::loop_isolation(false)]
    pub fn pull_internal_progress(
        &self,
        counters: &mut Vec<CountMap>,
        frontier_progress: &mut Vec<CountMap>,
        messages_consumed: &mut Vec<CountMap>,
        messages_produced: &mut Vec<CountMap>,
    ) -> (active: bool)
        requires
            self.wf_in(old(counters)@.len() as int),
            forall|c: int|
                0 <= c < old(counters)@.len() ==> (#[trigger] old(counters)@[c]).wf(),
            old(messages_consumed)@.len() == self.consumed@.len(),
            forall|i: int|
                0 <= i < self.consumed@.len() ==> (#[trigger] old(messages_consumed)@[i]).wf(),
            old(messages_produced)@.len() == 1,
            old(messages_produced)@[0].wf(),
            forall|i: int, t: Timestamp|
                0 <= i < self.consumed@.len() ==> i64::MIN as int <= (#[trigger] old(
                    messages_consumed,
                )@[i].count(t)) + old(counters)@[self.consumed@[i] as int].count(t)
                    <= i64::MAX as int,
            forall|k: int, t: Timestamp|
                0 <= k <= self.consumed@.len() ==> i64::MIN as int <= old(
                    messages_produced,
                )@[0].count(t) + (#[trigger] drained_sum(old(counters)@, self.consumed@, k, t))
                    <= i64::MAX as int,
        ensures
            pull_post(
                self.consumed@,
                old(counters)@,
                final(counters)@,
                old(messages_consumed)@,
                final(messages_consumed)@,
                old(messages_produced)@,
                final(messages_produced)@,
                active,
            ),
            final(frontier_progress)@ == old(frontier_progress)@,
    {
        let ghost handles = self.consumed@;
        let ghost counters0 = counters@;
        let ghost consumed0 = messages_consumed@;
        let ghost produced0 = messages_produced@;
        let n = self.consumed.len();
        let mut index: usize = 0;
        while index < n
            invariant
                0 <= index <= n,
                counters@.len() == counters0.len(),
                forall|j: int|
                    0 <= j < index ==> counters@[#[trigger] handles[j] as int].spec_is_empty(),
                forall|j: int|
                    index <= j < n ==> counters@[#[trigger] handles[j] as int] == counters0[handles[j] as int],
                forall|c: int|
                    0 <= c < counters0.len() && !handles.contains(c as usize) ==> (
                    #[trigger] counters@[c]) == counters0[c],
                forall|c: int| 0 <= c < counters0.len() ==> (#[trigger] counters@[c]).wf(),
                messages_consumed@.len() == n,
                forall|j: int, t: Timestamp|
                    0 <= j < index ==> (#[trigger] messages_consumed@[j].count(t)) == consumed0[j].count(
                        t,
                    ) + counters0[handles[j] as int].count(t),
                forall|j: int|
                    index <= j < n ==> (#[trigger] messages_consumed@[j]) == consumed0[j],
                forall|j: int| 0 <= j < n ==> (#[trigger] messages_consumed@[j]).wf(),
                messages_produced@.len() == 1,
                messages_produced@[0].wf(),
                forall|t: Timestamp|
                    (#[trigger] messages_produced@[0].count(t)) == produced0[0].count(t)
                        + drained_sum(counters0, handles, index as int, t),
            decreases n - index,
        {
            let c = self.consumed[index];
            let ghost ctr_entry = counters@;
            let ghost mc_entry = messages_consumed@;
            proof {
                assert(ctr_entry[c as int] == counters0[c as int]);
                assert forall|t: Timestamp|
                    drained_sum(counters0, handles, index as int + 1, t) == drained_sum(
                    counters0,
                    handles,
                    index as int,
                    t,
                ) + counters0[c as int].count(t) by {}
            }
            while !counters[c].is_empty()
                invariant
                    counters@.len() == counters0.len(),
                    forall|d: int|
                        0 <= d < counters0.len() && d != c ==> (#[trigger] counters@[d])
                            == ctr_entry[d],
                    forall|d: int| 0 <= d < counters0.len() ==> (#[trigger] counters@[d]).wf(),
                    messages_consumed@.len() == n,
                    forall|j: int|
                        0 <= j < n && j != index ==> (#[trigger] messages_consumed@[j])
                            == mc_entry[j],
                    forall|j: int| 0 <= j < n ==> (#[trigger] messages_consumed@[j]).wf(),
                    messages_produced@.len() == 1,
                    messages_produced@[0].wf(),
                    forall|t: Timestamp|
                        (#[trigger] messages_consumed@[index as int].count(t)) + counters@[c as int].count(
                            t,
                        ) == consumed0[index as int].count(t) + counters0[c as int].count(t),
                    forall|t: Timestamp|
                        (#[trigger] messages_produced@[0].count(t)) + counters@[c as int].count(t)
                            == produced0[0].count(t) + drained_sum(
                            counters0,
                            handles,
                            index as int + 1,
                            t,
                        ),
                decreases counters@[c as int].size(),
            {
                let popped = counters[c].pop();
                match popped {
                    Some(entry) => {
                        let (key, val) = entry;
                        messages_consumed[index].update(key, val);
                        messages_produced[0].update(key, val);
                    },
                    None => {
                        // pop on a ledger that is not empty always yields an entry
                        proof {
                            assert(false);
                        }
                    },
                }
            }
            proof {
                assert(counters@[c as int].spec_is_empty());
                assert(handles[index as int] == c);
                assert forall|t: Timestamp|
                    (#[trigger] messages_consumed@[index as int].count(t))
                        == consumed0[index as int].count(t) + counters0[handles[index as int] as int].count(
                        t,
                    ) by {
                    assert(counters@[c as int].count(t) == 0);
                }
                assert forall|t: Timestamp|
                    (#[trigger] messages_produced@[0].count(t)) == produced0[0].count(t)
                        + drained_sum(counters0, handles, index as int + 1, t) by {
                    assert(counters@[c as int].count(t) == 0);
                }
            }
            index += 1;
        }
        false
    }
}

/// Total count at `t` of the first `k` report maps in `reports`.
pub open spec fn reports_sum(reports: Seq<CountMap>, k: int, t: Timestamp) -> int
    decreases k,
{
    if k <= 0 {
        0
    } else {
        reports_sum(reports, k - 1, t) + reports[k - 1].count(t)
    }
}

/// Total net at `t` of the first `k` per-edge update records in `updates`.
pub open spec fn total_net(updates: Seq<Seq<(Timestamp, int)>>, k: int, t: Timestamp) -> int
    decreases k,
{
    if k <= 0 {
        0
    } else {
        total_net(updates, k - 1, t) + net_sum(updates[k - 1], t)
    }
}

proof fn lemma_drained_sum_is_report_delta(
    handles: Seq<usize>,
    counters0: Seq<CountMap>,
    consumed0: Seq<CountMap>,
    consumed1: Seq<CountMap>,
    k: int,
    t: Timestamp,
)
    requires
        0 <= k <= handles.len(),
        forall|i: int, u: Timestamp|
            0 <= i < handles.len() ==> (#[trigger] consumed1[i].count(u)) == consumed0[i].count(u)
                + counters0[handles[i] as int].count(u),
    ensures
        drained_sum(counters0, handles, k, t) == reports_sum(consumed1, k, t) - reports_sum(
            consumed0,
            k,
            t,
        ),
    decreases k,
{
    if k > 0 {
        lemma_drained_sum_is_report_delta(handles, counters0, consumed0, consumed1, k - 1, t);
    }
}

proof fn lemma_drained_sum_is_total_net(
    handles: Seq<usize>,
    counters0: Seq<CountMap>,
    updates: Seq<Seq<(Timestamp, int)>>,
    k: int,
    t: Timestamp,
)
    requires
        0 <= k <= handles.len(),
        updates.len() == handles.len(),
        forall|i: int, u: Timestamp|
            0 <= i < handles.len() ==> (#[trigger] counters0[handles[i] as int].count(u))
                == net_sum(updates[i], u),
    ensures
        drained_sum(counters0, handles, k, t) == total_net(updates, k, t),
    decreases k,
{
    if k > 0 {
        lemma_drained_sum_is_total_net(handles, counters0, updates, k - 1, t);
    }
}

proof fn lemma_drained_sum_empty(
    handles: Seq<usize>,
    counters: Seq<CountMap>,
    k: int,
    t: Timestamp,
)
    requires
        0 <= k <= handles.len(),
        forall|i: int|
            0 <= i < handles.len() ==> counters[#[trigger] handles[i] as int].spec_is_empty(),
    ensures
        drained_sum(counters, handles, k, t) == 0,
    decreases k,
{
    if k > 0 {
        lemma_drained_sum_empty(handles, counters, k - 1, t);
    }
}

/// Merge neutrality: across one progress pull on a merge scope, the produced
/// report at the single output grows by exactly the total growth of the
/// consumed reports over all inputs — whatever volume arrives is forwarded in
/// the accounting, losslessly and without delay — and the pull never claims
/// pending internal work.
pub proof fn lemma_merge_neutrality(
    handles: Seq<usize>,
    counters0: Seq<CountMap>,
    counters1: Seq<CountMap>,
    consumed0: Seq<CountMap>,
    consumed1: Seq<CountMap>,
    produced0: Seq<CountMap>,
    produced1: Seq<CountMap>,
    active: bool,
    t: Timestamp,
)
    requires
        pull_post(handles, counters0, counters1, consumed0, consumed1, produced0, produced1, active),
    ensures
        !active,
        produced1[0].count(t) - produced0[0].count(t) == reports_sum(
            consumed1,
            handles.len() as int,
            t,
        ) - reports_sum(consumed0, handles.len() as int, t),
{
    lemma_drained_sum_is_report_delta(
        handles,
        counters0,
        consumed0,
        consumed1,
        handles.len() as int,
        t,
    );
}

/// Conservation law: when each input counter map of a merge scope holds the
/// net of the increments its edge observer recorded, one full drain reports,
/// per timestamp, consumed totals equal to those nets and a produced total
/// equal to their sum over all inputs: every unit recorded on an edge is
/// reported consumed exactly once and forwarded into the produced ledger,
/// with no loss and no double-counting.
pub proof fn lemma_conservation(
    updates: Seq<Seq<(Timestamp, int)>>,
    handles: Seq<usize>,
    counters0: Seq<CountMap>,
    counters1: Seq<CountMap>,
    consumed0: Seq<CountMap>,
    consumed1: Seq<CountMap>,
    produced0: Seq<CountMap>,
    produced1: Seq<CountMap>,
    active: bool,
    t: Timestamp,
)
    requires
        pull_post(handles, counters0, counters1, consumed0, consumed1, produced0, produced1, active),
        updates.len() == handles.len(),
        forall|i: int, u: Timestamp|
            0 <= i < handles.len() ==> (#[trigger] counters0[handles[i] as int].count(u))
                == net_sum(updates[i], u),
    ensures
        !active,
        forall|i: int|
            0 <= i < handles.len() ==> (#[trigger] consumed1[i].count(t)) == consumed0[i].count(t)
                + net_sum(updates[i], t),
        produced1[0].count(t) == produced0[0].count(t) + total_net(
            updates,
            updates.len() as int,
            t,
        ),
{
    lemma_drained_sum_is_total_net(handles, counters0, updates, handles.len() as int, t);
}

/// Idempotent drain: a second progress pull right after a full drain adds
/// nothing to any consumed or produced report — no delta is ever reported
/// twice — and still returns no pending internal work.
pub proof fn lemma_idempotent_drain(
    handles: Seq<usize>,
    counters0: Seq<CountMap>,
    counters1: Seq<CountMap>,
    counters2: Seq<CountMap>,
    consumed0: Seq<CountMap>,
    consumed1: Seq<CountMap>,
    consumed2: Seq<CountMap>,
    produced0: Seq<CountMap>,
    produced1: Seq<CountMap>,
    produced2: Seq<CountMap>,
    active1: bool,
    active2: bool,
    t: Timestamp,
)
    requires
        pull_post(
            handles,
            counters0,
            counters1,
            consumed0,
            consumed1,
            produced0,
            produced1,
            active1,
        ),
        pull_post(
            handles,
            counters1,
            counters2,
            consumed1,
            consumed2,
            produced1,
            produced2,
            active2,
        ),
    ensures
        !active2,
        forall|i: int|
            0 <= i < handles.len() ==> (#[trigger] consumed2[i].count(t)) == consumed1[i].count(t),
        produced2[0].count(t) == produced1[0].count(t),
{
    lemma_drained_sum_empty(handles, counters1, handles.len() as int, t);
}

/// Concatenation of one stream with another.
pub trait ConcatExt: Sized {
    /// What `concat` asks of its inputs.
    spec fn concat_pre(self, other: Self, graph: GraphBuilder) -> bool;

    /// What `concat` does: relates the two streams and the graph before the
    /// call, the same three after it, and the merged stream returned.
    spec fn concat_post(
        self,
        other: Self,
        graph: GraphBuilder,
        self1: Self,
        other1: Self,
        graph1: GraphBuilder,
        merged: Self,
    ) -> bool;

    /// Merges `self` and `other` into one stream: registers a fresh merge
    /// scope over two fresh counter maps, wires a counting observer and a
    /// graph edge from each input, and returns a stream over the scope's
    /// single output.
    fn concat(&mut self, other: &mut Self, graph: &mut GraphBuilder) -> (merged: Self)
        requires
            old(self).concat_pre(*old(other), *old(graph)),
        ensures
            old(self).concat_post(
                *old(other),
                *old(graph),
                *final(self),
                *final(other),
                *final(graph),
                merged,
            ),
    ;
}

impl<D: Copy> ConcatExt for Stream<D> {
    open spec fn concat_pre(self, other: Stream<D>, graph: GraphBuilder) -> bool {
        true
    }

    open spec fn concat_post(
        self,
        other: Stream<D>,
        graph: GraphBuilder,
        self1: Stream<D>,
        other1: Stream<D>,
        graph1: GraphBuilder,
        merged: Stream<D>,
    ) -> bool {
        let index = graph.scopes@.len() as int;
        let base = graph.counters@.len() as int;
        let e0 = graph.edges@.len() as int;
        &&& graph1.counters@.len() == base + 2
        &&& (forall|c: int| 0 <= c < base ==> (#[trigger] graph1.counters@[c]) == graph.counters@[c])
        &&& graph1.counters@[base].wf() && graph1.counters@[base].spec_is_empty()
        &&& graph1.counters@[base + 1].wf() && graph1.counters@[base + 1].spec_is_empty()
        &&& graph1.scopes@.len() == index + 1
        &&& (forall|s: int| 0 <= s < index ==> (#[trigger] graph1.scopes@[s]) == graph.scopes@[s])
        &&& graph1.scopes@[index].consumed@.len() == 2
        &&& graph1.scopes@[index].consumed@[0] as int == base
        &&& graph1.scopes@[index].consumed@[1] as int == base + 1
        &&& graph1.edges@.len() == e0 + 2
        &&& (forall|e: int| 0 <= e < e0 ==> (#[trigger] graph1.edges@[e]) == graph.edges@[e])
        &&& graph1.edges@[e0] == (self.name, Target::ScopeInput(index as usize, 0))
        &&& graph1.edges@[e0 + 1] == (other.name, Target::ScopeInput(index as usize, 1))
        &&& self1.name == self.name
        &&& self1.ports.observers@.len() == self.ports.observers@.len() + 1
        &&& (forall|j: int|
            0 <= j < self.ports.observers@.len() ==> (#[trigger] self1.ports.observers@[j])
                == self.ports.observers@[j])
        &&& self1.ports.observers@.last().counter as int == base
        &&& self1.ports.observers@.last().forwarded@.len() == 0
        &&& other1.name == other.name
        &&& other1.ports.observers@.len() == other.ports.observers@.len() + 1
        &&& (forall|j: int|
            0 <= j < other.ports.observers@.len() ==> (#[trigger] other1.ports.observers@[j])
                == other.ports.observers@[j])
        &&& other1.ports.observers@.last().counter as int == base + 1
        &&& other1.ports.observers@.last().forwarded@.len() == 0
        &&& merged.name == Source::ScopeOutput(index as usize, 0)
        &&& merged.ports.observers@.len() == 0
    }

    fn concat(&mut self, other: &mut Stream<D>, graph: &mut GraphBuilder) -> (merged: Stream<D>) {
        let outputs: OutputPort<D> = OutputPort::new();
        let c0 = graph.new_counter();
        let c1 = graph.new_counter();
        let mut handles: Vec<usize> = Vec::new();
        handles.push(c0);
        handles.push(c1);
        let index = graph.add_scope(ConcatScope::new(handles));
        self.connect_to(graph, Target::ScopeInput(index, 0), Observer::new(c0));
        other.connect_to(graph, Target::ScopeInput(index, 1), Observer::new(c1));
        self.clone_with(Source::ScopeOutput(index, 0), outputs)
    }
}

/// Concatenation of any non-empty collection of streams.
pub trait ConcatVecExt<D>: Sized {
    /// What `concatenate` asks of its inputs.
    spec fn concatenate_pre(self, graph: GraphBuilder) -> bool;

    /// What `concatenate` does: relates the streams and the graph before the
    /// call, both after it, and the merged stream returned.
    spec fn concatenate_post(
        self,
        graph: GraphBuilder,
        self1: Self,
        graph1: GraphBuilder,
        merged: Stream<D>,
    ) -> bool;

    /// Merges all streams into one: registers a fresh merge scope with one
    /// fresh counter map per input, wires a counting observer and a graph
    /// edge from each input, and returns a stream over the scope's single
    /// output.  Merging an empty collection is a usage error, ruled out by
    /// `concatenate_pre`.
    fn concatenate(&mut self, graph: &mut GraphBuilder) -> (merged: Stream<D>)
        requires
            old(self).concatenate_pre(*old(graph)),
        ensures
            old(self).concatenate_post(*old(graph), *final(self), *final(graph), merged),
    ;
}

impl<D: Copy> ConcatVecExt<D> for Vec<Stream<D>> {
    open spec fn concatenate_pre(self, graph: GraphBuilder) -> bool {
        self@.len() >= 1
    }

    open spec fn concatenate_post(
        self,
        graph: GraphBuilder,
        self1: Vec<Stream<D>>,
        graph1: GraphBuilder,
        merged: Stream<D>,
    ) -> bool {
        let n = self@.len() as int;
        let index = graph.scopes@.len() as int;
        let base = graph.counters@.len() as int;
        let e0 = graph.edges@.len() as int;
        &&& graph1.counters@.len() == base + n
        &&& (forall|c: int| 0 <= c < base ==> (#[trigger] graph1.counters@[c]) == graph.counters@[c])
        &&& (forall|i: int|
            0 <= i < n ==> (#[trigger] graph1.counters@[base + i]).wf()
                && graph1.counters@[base + i].spec_is_empty())
        &&& graph1.scopes@.len() == index + 1
        &&& (forall|s: int| 0 <= s < index ==> (#[trigger] graph1.scopes@[s]) == graph.scopes@[s])
        &&& graph1.scopes@[index].consumed@.len() == n
        &&& (forall|i: int|
            0 <= i < n ==> (#[trigger] graph1.scopes@[index].consumed@[i] as int) == base + i)
        &&& graph1.edges@.len() == e0 + n
        &&& (forall|e: int| 0 <= e < e0 ==> (#[trigger] graph1.edges@[e]) == graph.edges@[e])
        &&& (forall|i: int|
            0 <= i < n ==> (#[trigger] graph1.edges@[e0 + i]) == (
            self@[i].name,
            Target::ScopeInput(index as usize, i as usize),
            ))
        &&& self1@.len() == n
        &&& (forall|i: int| 0 <= i < n ==> (#[trigger] self1@[i].name) == self@[i].name)
        &&& (forall|i: int|
            0 <= i < n ==> (#[trigger] self1@[i].ports.observers@.len()) == self@[
                i
            ].ports.observers@.len() + 1)
        &&& (forall|i: int, j: int|
            0 <= i < n && 0 <= j < self@[i].ports.observers@.len() ==> (
            #[trigger] self1@[i].ports.observers@[j]) == self@[i].ports.observers@[j])
        &&& (forall|i: int|
            0 <= i < n ==> (#[trigger] self1@[i].ports.observers@.last().counter as int) == base
                + i && self1@[i].ports.observers@.last().forwarded@.len() == 0)
        &&& merged.name == Source::ScopeOutput(index as usize, 0)
        &&& merged.ports.observers@.len() == 0
    }

    #[verifier::loop_isolation(false)]
    fn concatenate(&mut self, graph: &mut GraphBuilder) -> (merged: Stream<D>) {
        let ghost self0 = self@;
        let ghost graph0 = *graph;
        let outputs: OutputPort<D> = OutputPort::new();
        let n = self.len();
        let base = graph.counters.len();
        let mut handles: Vec<usize> = Vec::new();
        let mut id: usize = 0;
        while id < n
            invariant
                0 <= id <= n,
                handles@.len() == id,
                forall|i: int| 0 <= i < id ==> (#[trigger] handles@[i] as int) == base + i,
                graph.counters@.len() == base + id,
                forall|c: int| 0 <= c < base ==> (#[trigger] graph.counters@[c]) == graph0.counters@[c],
                forall|i: int|
                    0 <= i < id ==> (#[trigger] graph.counters@[base + i]).wf()
                        && graph.counters@[base + i].spec_is_empty(),
                graph.scopes@ == graph0.scopes@,
                graph.edges@ == graph0.edges@,
                self@ == self0,
            decreases n - id,
        {
            let c = graph.new_counter();
            handles.push(c);
            id += 1;
        }
        let index = graph.add_scope(ConcatScope::new(handles));
        let total = graph.counters.len();
        proof {
            assert(total == base + n);
        }
        let ghost graph_mid = *graph;
        let mut id: usize = 0;
        while id < n
            invariant
                0 <= id <= n,
                self@.len() == n,
                forall|i: int| id <= i < n ==> (#[trigger] self@[i]) == self0[i],
                forall|i: int| 0 <= i < id ==> (#[trigger] self@[i].name) == self0[i].name,
                forall|i: int|
                    0 <= i < id ==> (#[trigger] self@[i].ports.observers@.len()) == self0[
                        i
                    ].ports.observers@.len() + 1,
                forall|i: int, j: int|
                    0 <= i < id && 0 <= j < self0[i].ports.observers@.len() ==> (
                    #[trigger] self@[i].ports.observers@[j]) == self0[i].ports.observers@[j],
                forall|i: int|
                    0 <= i < id ==> (#[trigger] self@[i].ports.observers@.last().counter as int)
                        == base + i && self@[i].ports.observers@.last().forwarded@.len() == 0,
                graph.scopes@ == graph_mid.scopes@,
                graph.counters@ == graph_mid.counters@,
                graph.edges@.len() == graph_mid.edges@.len() + id,
                forall|e: int|
                    0 <= e < graph_mid.edges@.len() ==> (#[trigger] graph.edges@[e])
                        == graph_mid.edges@[e],
                forall|i: int|
                    0 <= i < id ==> (#[trigger] graph.edges@[graph_mid.edges@.len() + i]) == (
                    self0[i].name,
                    Target::ScopeInput(index, i as usize),
                    ),
            decreases n - id,
        {
            self[id].connect_to(graph, Target::ScopeInput(index, id), Observer::new(base + id));
            id += 1;
        }
        self[0].clone_with(Source::ScopeOutput(index, 0), outputs)
    }
}

} // verus!
