use dataflow::concat::{ConcatExt, ConcatVecExt};
use dataflow::count_map::CountMap;
use dataflow::graph::{GraphBuilder, Source, Target};
use dataflow::port::{Observer, OutputPort};
use dataflow::stream::Stream;
use dataflow::timestamp::Timestamp;

/// Drains a counter map through `pop`, returning the entries sorted by
/// timestamp (pop order is unspecified).
fn drain(m: &mut CountMap) -> Vec<(Timestamp, i64)> {
    let mut out = Vec::new();
    while let Some(e) = m.pop() {
        out.push(e);
    }
    out.sort_by_key(|e| (e.0.epoch, e.0.iter));
    out
}

#[test]
fn timestamp_order_and_join() {
    let a = Timestamp::new(1, 2);
    let b = Timestamp::new(2, 1);
    let c = Timestamp::new(1, 3);
    assert!(a.le(&a));
    assert!(a.le(&c));
    assert!(!c.le(&a));
    // a and b are incomparable: a partial order, not a total one
    assert!(!a.le(&b));
    assert!(!b.le(&a));
    let j = a.join(&b);
    assert_eq!(j, Timestamp::new(2, 2));
    assert!(a.le(&j));
    assert!(b.le(&j));
    assert_eq!(a.join(&c), c);
}

#[test]
fn count_map_recovers_net_sums() {
    let a = Timestamp::new(0, 0);
    let b = Timestamp::new(1, 0);
    let c = Timestamp::new(2, 0);
    let mut m = CountMap::new();
    assert!(m.is_empty());
    m.update(a, 3);
    m.update(b, -2);
    m.update(a, 1);
    m.update(c, 7);
    m.update(c, -7);
    assert!(!m.is_empty());
    let drained = drain(&mut m);
    // per timestamp, the net of all deltas; zero-net timestamps never surface
    assert_eq!(drained, vec![(a, 4), (b, -2)]);
    assert!(m.is_empty());
    assert_eq!(m.pop(), None);
}

#[test]
fn count_map_purges_zero_net() {
    let t = Timestamp::new(5, 0);
    let mut m = CountMap::new();
    m.update(t, 1);
    m.update(t, -1);
    assert!(m.is_empty());
    assert_eq!(m.pop(), None);
}

#[test]
fn fan_out_broadcast_reaches_every_observer() {
    let t = Timestamp::new(0, 0);
    let mut counters = vec![CountMap::new(), CountMap::new(), CountMap::new()];
    let mut port: OutputPort<u64> = OutputPort::new();
    port.add_observer(Observer::new(0));
    port.add_observer(Observer::new(1));
    port.add_observer(Observer::new(2));
    port.send(&mut counters, t, 99);
    // exactly one forwarded delivery per observer
    assert_eq!(port.observers.len(), 3);
    for obs in &port.observers {
        assert_eq!(obs.forwarded, vec![(t, 99)]);
    }
    // each observer charged its own counter map independently
    for m in counters.iter_mut() {
        assert_eq!(drain(m), vec![(t, 1)]);
    }
}

#[test]
fn concat_wires_scope_edges_and_observers() {
    let mut g = GraphBuilder::new();
    let mut s0: Stream<u64> = Stream::new(Source::GraphInput(0), OutputPort::new());
    let mut s1: Stream<u64> = Stream::new(Source::GraphInput(1), OutputPort::new());
    let merged = s0.concat(&mut s1, &mut g);
    assert_eq!(g.scopes.len(), 1);
    assert_eq!(g.counters.len(), 2);
    assert_eq!(g.scopes[0].consumed, vec![0, 1]);
    assert_eq!(
        g.edges,
        vec![
            (Source::GraphInput(0), Target::ScopeInput(0, 0)),
            (Source::GraphInput(1), Target::ScopeInput(0, 1)),
        ]
    );
    assert_eq!(merged.name, Source::ScopeOutput(0, 0));
    assert!(merged.ports.observers.is_empty());
    assert_eq!(s0.ports.observers.len(), 1);
    assert_eq!(s0.ports.observers[0].counter, 0);
    assert_eq!(s1.ports.observers.len(), 1);
    assert_eq!(s1.ports.observers[0].counter, 1);
}

#[test]
fn concat_scope_contract_arity() {
    let mut g = GraphBuilder::new();
    let mut streams: Vec<Stream<u64>> = vec![
        Stream::new(Source::GraphInput(0), OutputPort::new()),
        Stream::new(Source::GraphInput(1), OutputPort::new()),
        Stream::new(Source::GraphInput(2), OutputPort::new()),
    ];
    let merged = streams.concatenate(&mut g);
    assert_eq!(g.scopes.len(), 1);
    let scope = &g.scopes[0];
    assert_eq!(scope.inputs(), 3);
    assert_eq!(scope.outputs(), 1);
    assert_eq!(scope.name(), "Concat");
    assert!(!scope.notify_me());
    assert_eq!(merged.name, Source::ScopeOutput(0, 0));
    for (i, s) in streams.iter().enumerate() {
        assert_eq!(s.ports.observers.len(), 1);
        assert_eq!(s.ports.observers[0].counter, i);
    }
}

#[test]
fn merge_is_progress_neutral() {
    // feed N = 2 and M = 3 messages on two concatenated streams
    let t0 = Timestamp::new(0, 0);
    let t1 = Timestamp::new(1, 0);
    let mut g = GraphBuilder::new();
    let mut s0: Stream<u64> = Stream::new(Source::GraphInput(0), OutputPort::new());
    let mut s1: Stream<u64> = Stream::new(Source::GraphInput(1), OutputPort::new());
    let _merged = s0.concat(&mut s1, &mut g);
    s0.ports.send(&mut g.counters, t0, 10);
    s0.ports.send(&mut g.counters, t0, 11);
    s1.ports.send(&mut g.counters, t0, 20);
    s1.ports.send(&mut g.counters, t1, 21);
    s1.ports.send(&mut g.counters, t1, 22);
    let mut frontier = Vec::new();
    let mut consumed = vec![CountMap::new(), CountMap::new()];
    let mut produced = vec![CountMap::new()];
    let active =
        g.scopes[0].pull_internal_progress(&mut g.counters, &mut frontier, &mut consumed, &mut produced);
    // a merge never has deferred internal work of its own
    assert!(!active);
    // produced ledger is N + M at the union of timestamps used
    assert_eq!(drain(&mut produced[0]), vec![(t0, 3), (t1, 2)]);
    assert_eq!(drain(&mut consumed[0]), vec![(t0, 2)]);
    assert_eq!(drain(&mut consumed[1]), vec![(t0, 1), (t1, 2)]);
}

#[test]
fn pull_after_drain_is_idempotent() {
    let t0 = Timestamp::new(0, 0);
    let mut g = GraphBuilder::new();
    let mut s0: Stream<u64> = Stream::new(Source::GraphInput(0), OutputPort::new());
    let mut s1: Stream<u64> = Stream::new(Source::GraphInput(1), OutputPort::new());
    let _merged = s0.concat(&mut s1, &mut g);
    s0.ports.send(&mut g.counters, t0, 1);
    s1.ports.send(&mut g.counters, t0, 2);
    let mut frontier = Vec::new();
    let mut consumed = vec![CountMap::new(), CountMap::new()];
    let mut produced = vec![CountMap::new()];
    let first =
        g.scopes[0].pull_internal_progress(&mut g.counters, &mut frontier, &mut consumed, &mut produced);
    assert!(!first);
    // a second pull adds nothing to the reports and still signals no work
    let second =
        g.scopes[0].pull_internal_progress(&mut g.counters, &mut frontier, &mut consumed, &mut produced);
    assert!(!second);
    assert_eq!(drain(&mut produced[0]), vec![(t0, 2)]);
    assert_eq!(drain(&mut consumed[0]), vec![(t0, 1)]);
    assert_eq!(drain(&mut consumed[1]), vec![(t0, 1)]);
}

#[test]
fn two_sources_one_message_each() {
    // two leaf sources each emit one message at t = 0, concatenated into M
    let t0 = Timestamp::new(0, 0);
    let mut g = GraphBuilder::new();
    let mut s0: Stream<u64> = Stream::new(Source::GraphInput(0), OutputPort::new());
    let mut s1: Stream<u64> = Stream::new(Source::GraphInput(1), OutputPort::new());
    let mut merged = s0.concat(&mut s1, &mut g);
    // a downstream consumer of M accounts on a counter map of its own
    let downstream = g.new_counter();
    merged.connect_to(&mut g, Target::GraphOutput(0), Observer::new(downstream));
    s0.ports.send(&mut g.counters, t0, 100);
    s1.ports.send(&mut g.counters, t0, 200);
    let mut frontier = Vec::new();
    let mut consumed = vec![CountMap::new(), CountMap::new()];
    let mut produced = vec![CountMap::new()];
    let active =
        g.scopes[0].pull_internal_progress(&mut g.counters, &mut frontier, &mut consumed, &mut produced);
    assert!(!active);
    // M's produced ledger shows exactly {t0: +2}, each source consumed {t0: +1}
    assert_eq!(drain(&mut produced[0]), vec![(t0, 2)]);
    assert_eq!(drain(&mut consumed[0]), vec![(t0, 1)]);
    assert_eq!(drain(&mut consumed[1]), vec![(t0, 1)]);
    // the merged output forwards both messages through M's port; only once the
    // downstream consumer reports them does the system-wide ledger reach zero
    merged.ports.send(&mut g.counters, t0, 100);
    merged.ports.send(&mut g.counters, t0, 200);
    assert_eq!(drain(&mut g.counters[downstream]), vec![(t0, 2)]);
    for m in g.counters.iter_mut() {
        assert!(m.is_empty());
    }
}

#[test]
fn count_map_crosses_zero_and_goes_negative() {
    let t = Timestamp::new(0, 0);
    let mut m = CountMap::new();
    m.update(t, 5);
    m.update(t, -7);
    assert!(!m.is_empty());
    assert_eq!(m.pop(), Some((t, -2)));
    assert!(m.is_empty());
}

#[test]
fn count_map_holds_extreme_counts() {
    let t = Timestamp::new(0, 0);
    let mut m = CountMap::new();
    m.update(t, i64::MAX);
    assert_eq!(m.pop(), Some((t, i64::MAX)));
    m.update(t, i64::MIN);
    assert_eq!(m.pop(), Some((t, i64::MIN)));
    assert!(m.is_empty());
}

#[test]
fn observers_sharing_a_counter_charge_it_twice() {
    let t = Timestamp::new(3, 0);
    let mut counters = vec![CountMap::new()];
    let mut port: OutputPort<u64> = OutputPort::new();
    port.add_observer(Observer::new(0));
    port.add_observer(Observer::new(0));
    port.send(&mut counters, t, 7);
    assert_eq!(drain(&mut counters[0]), vec![(t, 2)]);
    for obs in &port.observers {
        assert_eq!(obs.forwarded, vec![(t, 7)]);
    }
}
