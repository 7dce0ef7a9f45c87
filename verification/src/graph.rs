//! The graph builder: the arena that owns scopes, edges and counter maps.

use vstd::prelude::*;
use crate::concat::ConcatScope;
use crate::count_map::CountMap;

verus! {

/// Address of a data producer: an output of a registered scope, or an input
/// handed down from the enclosing graph.
#[derive(Clone, Copy, PartialEq, Eq, Structural, Debug)]
pub enum Source {
    /// Input `port` of the enclosing graph, fed from outside.
    GraphInput(usize),
    /// Output `port` of the scope at `index`: `ScopeOutput(index, port)`.
    ScopeOutput(usize, usize),
}

/// Address of a data consumer: an input of a registered scope, or an output
/// handed up to the enclosing graph.
#[derive(Clone, Copy, PartialEq, Eq, Structural, Debug)]
pub enum Target {
    /// Output `port` of the enclosing graph, draining outside.
    GraphOutput(usize),
    /// Input `port` of the scope at `index`: `ScopeInput(index, port)`.
    ScopeInput(usize, usize),
}

/// Owner of a dataflow graph under construction: the registered scopes in
/// insertion order, the directed edges between addresses, and the arena of
/// counter maps that edges account on.  Scopes and edges are only ever
/// appended; producer and consumer sides share a counter map by holding its
/// arena index.
pub struct GraphBuilder {
    /// Registered scopes, indexed by insertion order.
    pub scopes: Vec<ConcatScope>,
    /// Directed edges recorded by `connect`, in recording order.
    pub edges: Vec<(Source, Target)>,
    /// Counter-map arena; an edge's producer and consumer name one slot.
    pub counters: Vec<CountMap>,
}

impl GraphBuilder {
    pub fn new() -> (r: GraphBuilder)
        ensures
            r.scopes@.len() == 0,
            r.edges@.len() == 0,
            r.counters@.len() == 0,
    {
        GraphBuilder { scopes: Vec::new(), edges: Vec::new(), counters: Vec::new() }
    }

    /// Registers a scope by move and returns its stable index; the scope's
    /// arity is fixed from this moment.
    pub fn add_scope(&mut self, scope: ConcatScope) -> (index: usize)
        ensures
            index == old(self).scopes@.len(),
            final(self).scopes@ == old(self).scopes@.push(scope),
            final(self).edges@ == old(self).edges@,
            final(self).counters@ == old(self).counters@,
    {
        let index = self.scopes.len();
        self.scopes.push(scope);
        index
    }

    /// Records one directed edge; data movement itself is realized by
    /// observer registration on the producing port.
    pub fn connect(&mut self, source: Source, target: Target)
        ensures
            final(self).edges@ == old(self).edges@.push((source, target)),
            final(self).scopes@ == old(self).scopes@,
            final(self).counters@ == old(self).counters@,
    {
        self.edges.push((source, target));
    }

    /// Allocates a fresh, empty counter map in the arena and returns its
    /// index, the handle both sides of an edge account through.
    pub fn new_counter(&mut self) -> (index: usize)
        ensures
            index == old(self).counters@.len(),
            final(self).counters@.len() == old(self).counters@.len() + 1,
            forall|c: int|
                0 <= c < old(self).counters@.len() ==> #[trigger] final(self).counters@[c] == old(
                    self,
                ).counters@[c],
            final(self).counters@[index as int].wf(),
            forall|t: crate::timestamp::Timestamp|
                final(self).counters@[index as int].count(t) == 0,
            final(self).scopes@ == old(self).scopes@,
            final(self).edges@ == old(self).edges@,
    {
        let index = self.counters.len();
        self.counters.push(CountMap::new());
        index
    }
}

} // verus!
