//! Stream handles: the composable face of graph construction.

use vstd::prelude::*;
use crate::graph::{GraphBuilder, Source, Target};
use crate::port::{Observer, OutputPort};

verus! {

/// A typed handle to one output in the graph: the source address it stands
/// for, and the output port downstream consumers register interest on.
/// Operator chains are built by wiring observers onto a stream's port and
/// deriving new streams over fresh ports.
pub struct Stream<D> {
    /// The source address naming this output in the host graph.
    pub name: Source,
    /// The fan-out port carrying this output's data.
    pub ports: OutputPort<D>,
}

impl<D: Copy> Stream<D> {
    pub fn new(source: Source, output: OutputPort<D>) -> (r: Stream<D>)
        ensures
            r.name == source,
            r.ports == output,
    {
        Stream { name: source, ports: output }
    }

    /// Derives a stream over the same graph from a new source address and a
    /// new output port; the composition primitive operators are built from.
    pub fn clone_with<D2: Copy>(&self, source: Source, targets: OutputPort<D2>) -> (r: Stream<D2>)
        ensures
            r.name == source,
            r.ports == targets,
    {
        Stream::new(source, targets)
    }

    /// Wires a new consumer onto this output: records the graph edge from
    /// this stream's address to `target` and registers `observer` on the
    /// port, so every later send is also delivered (and counted) there.
    pub fn connect_to(&mut self, graph: &mut GraphBuilder, target: Target, observer: Observer<D>)
        ensures
            final(self).name == old(self).name,
            final(self).ports.observers@ == old(self).ports.observers@.push(observer),
            final(graph).edges@ == old(graph).edges@.push((old(self).name, target)),
            final(graph).scopes@ == old(graph).scopes@,
            final(graph).counters@ == old(graph).counters@,
    {
        graph.connect(self.name, target);
        self.ports.add_observer(observer);
    }
}

} // verus!
