use emeraldfundstudio::graph::{Graph, InPinId, NodeId, OutPinId};
use emeraldfundstudio::node_editor::{disconnect, reconfigure, remove_node, EFViewer};
use emeraldfundstudio::node_trait::{EFNode, NodeDataTypeWithValue};
use emeraldfundstudio::nodes::preview::PreviewNode;
use emeraldfundstudio::nodes::sma::SMANode;
use emeraldfundstudio::nodes::source::SourceNode;
use emeraldfundstudio::nodes::transform::TransformNode;
use emeraldfundstudio::realtime::{
    clear_cache_from_node_onward, get_outputs, is_node_realtime_executable, run_nodes,
    ComputeCache,
};

fn out0(id: NodeId) -> OutPinId {
    OutPinId { node: id, output: 0 }
}

fn in0(id: NodeId) -> InPinId {
    InPinId { node: id, input: 0 }
}

fn decimal_outputs(cache: &ComputeCache, id: NodeId) -> Vec<i64> {
    let outs = get_outputs(cache, id).expect("node should be cached");
    assert_eq!(outs.len(), 1);
    match &outs[0] {
        NodeDataTypeWithValue::DecimalSequence(v) => v.clone(),
        _ => panic!("expected a decimal sequence"),
    }
}

#[test]
fn cycle_of_length_two_is_rejected() {
    let mut graph = Graph::new();
    let mut cache = ComputeCache::new();
    let mut viewer = EFViewer;
    let a = graph.insert_node(EFNode::Sma(SMANode::default()));
    let b = graph.insert_node(EFNode::Sma(SMANode::default()));
    assert!(viewer.connect(out0(a), in0(b), &mut graph, &mut cache));
    assert_eq!(graph.edges.len(), 1);
    // Closing the two-cycle must be refused and leave the edge set alone.
    assert!(!viewer.connect(out0(b), in0(a), &mut graph, &mut cache));
    assert_eq!(graph.edges.len(), 1);
}

#[test]
fn longer_cycles_are_rejected() {
    for chain_len in 3..8usize {
        let mut graph = Graph::new();
        let mut cache = ComputeCache::new();
        let mut viewer = EFViewer;
        let ids: Vec<NodeId> = (0..chain_len)
            .map(|_| graph.insert_node(EFNode::Sma(SMANode::default())))
            .collect();
        for w in ids.windows(2) {
            assert!(viewer.connect(out0(w[0]), in0(w[1]), &mut graph, &mut cache));
        }
        // Any edge from a later node back to an earlier one closes a cycle.
        for earlier in 0..chain_len - 1 {
            assert!(!viewer.connect(
                out0(ids[chain_len - 1]),
                in0(ids[earlier]),
                &mut graph,
                &mut cache
            ));
        }
        assert_eq!(graph.edges.len(), chain_len - 1);
    }
}

#[test]
fn self_loop_is_rejected() {
    let mut graph = Graph::new();
    let mut cache = ComputeCache::new();
    let mut viewer = EFViewer;
    let a = graph.insert_node(EFNode::Sma(SMANode::default()));
    assert!(!viewer.connect(out0(a), in0(a), &mut graph, &mut cache));
    assert_eq!(graph.edges.len(), 0);
}

#[test]
fn second_producer_replaces_first() {
    let mut graph = Graph::new();
    let mut cache = ComputeCache::new();
    let mut viewer = EFViewer;
    let a = graph.insert_node(EFNode::Source(SourceNode::new(vec![1])));
    let b = graph.insert_node(EFNode::Source(SourceNode::new(vec![2])));
    let x = graph.insert_node(EFNode::Sma(SMANode::default()));
    assert!(viewer.connect(out0(a), in0(x), &mut graph, &mut cache));
    assert!(viewer.connect(out0(b), in0(x), &mut graph, &mut cache));
    // Exactly one edge targets the input, and it comes from b.
    let into_x: Vec<_> = graph.edges.iter().filter(|e| e.to == in0(x)).collect();
    assert_eq!(into_x.len(), 1);
    assert_eq!(into_x[0].from, out0(b));
    // Readiness consults b's entry; after invalidation x recomputes from b.
    clear_cache_from_node_onward(&graph, &mut cache, &x);
    assert_eq!(decimal_outputs(&cache, x), vec![2]);
}

#[test]
fn mask_output_cannot_feed_decimal_input() {
    let mut graph = Graph::new();
    let mut cache = ComputeCache::new();
    let mut viewer = EFViewer;
    let cmp = graph.insert_node(EFNode::Compare(Default::default()));
    let sma = graph.insert_node(EFNode::Sma(SMANode::default()));
    // The comparison's only output carries a mask; the target expects a
    // decimal sequence. The connection must be refused with no edge made.
    assert!(!viewer.connect(out0(cmp), in0(sma), &mut graph, &mut cache));
    assert_eq!(graph.edges.len(), 0);
}

#[test]
fn source_transform_preview_pipeline() {
    let mut graph = Graph::new();
    let mut cache = ComputeCache::new();
    let mut viewer = EFViewer;
    let source = graph.insert_node(EFNode::Source(SourceNode::new(vec![1, 2, 3])));
    let transform = graph.insert_node(EFNode::Transform(TransformNode::default()));
    let preview = graph.insert_node(EFNode::Preview(PreviewNode::default()));
    assert!(viewer.connect(out0(source), in0(transform), &mut graph, &mut cache));
    assert!(viewer.connect(out0(transform), in0(preview), &mut graph, &mut cache));
    run_nodes(&graph, &mut cache);
    assert_eq!(decimal_outputs(&cache, transform), vec![2, 4, 6]);
    // The preview is a sink: cached with an empty output list.
    assert_eq!(get_outputs(&cache, preview).expect("preview cached").len(), 0);
}

#[test]
fn rerun_on_converged_graph_evaluates_nothing() {
    let mut graph = Graph::new();
    let mut cache = ComputeCache::new();
    let mut viewer = EFViewer;
    let source = graph.insert_node(EFNode::Source(SourceNode::new(vec![5])));
    let transform = graph.insert_node(EFNode::Transform(TransformNode::default()));
    assert!(viewer.connect(out0(source), in0(transform), &mut graph, &mut cache));
    // The connection already triggered a pass that cached everything.
    assert_eq!(run_nodes(&graph, &mut cache), 0);
    assert_eq!(run_nodes(&graph, &mut cache), 0);
}

#[test]
fn fresh_run_counts_evaluations() {
    let mut graph = Graph::new();
    let mut cache = ComputeCache::new();
    let a = graph.insert_node(EFNode::Source(SourceNode::new(vec![1])));
    let b = graph.insert_node(EFNode::Source(SourceNode::new(vec![2])));
    assert_eq!(run_nodes(&graph, &mut cache), 2);
    assert_eq!(run_nodes(&graph, &mut cache), 0);
    assert!(cache.contains(a.0) && cache.contains(b.0));
}

#[test]
fn reconfigure_clears_and_repopulates() {
    let mut graph = Graph::new();
    let mut cache = ComputeCache::new();
    let mut viewer = EFViewer;
    let source = graph.insert_node(EFNode::Source(SourceNode::new(vec![1, 2, 3])));
    let transform = graph.insert_node(EFNode::Transform(TransformNode::default()));
    let unrelated = graph.insert_node(EFNode::Source(SourceNode::new(vec![42])));
    assert!(viewer.connect(out0(source), in0(transform), &mut graph, &mut cache));
    run_nodes(&graph, &mut cache);
    assert_eq!(decimal_outputs(&cache, transform), vec![2, 4, 6]);
    assert_eq!(decimal_outputs(&cache, unrelated), vec![42]);
    // Swapping the source's configured values invalidates coarsely: the
    // whole cache clears, then the scheduler repopulates every entry —
    // nodes with no path from the changed one included.
    assert!(reconfigure(
        &mut graph,
        &mut cache,
        source,
        EFNode::Source(SourceNode::new(vec![10, 20]))
    ));
    assert_eq!(decimal_outputs(&cache, source), vec![10, 20]);
    assert_eq!(decimal_outputs(&cache, transform), vec![20, 40]);
    assert_eq!(decimal_outputs(&cache, unrelated), vec![42]);
    // Convergence was reached before the edit returned.
    assert_eq!(run_nodes(&graph, &mut cache), 0);
}

#[test]
fn reconfigure_refuses_different_slot_signature() {
    let mut graph = Graph::new();
    let mut cache = ComputeCache::new();
    let source = graph.insert_node(EFNode::Source(SourceNode::new(vec![1])));
    // A transform declares an input slot the source never had.
    assert!(!reconfigure(
        &mut graph,
        &mut cache,
        source,
        EFNode::Transform(TransformNode::default())
    ));
}

#[test]
fn disconnect_makes_chain_non_ready() {
    let mut graph = Graph::new();
    let mut cache = ComputeCache::new();
    let mut viewer = EFViewer;
    let source = graph.insert_node(EFNode::Source(SourceNode::new(vec![7])));
    let a = graph.insert_node(EFNode::Sma(SMANode::default()));
    let b = graph.insert_node(EFNode::Sma(SMANode::default()));
    assert!(viewer.connect(out0(source), in0(a), &mut graph, &mut cache));
    assert!(viewer.connect(out0(a), in0(b), &mut graph, &mut cache));
    assert!(is_node_realtime_executable(&graph, &cache, a));
    assert!(is_node_realtime_executable(&graph, &cache, b));
    assert!(disconnect(&mut graph, &mut cache, out0(source), in0(a)));
    // The fed node loses its entry with its producer, so neither it nor
    // its consumer is ready any more; the consumer's own stale entry may
    // linger until an explicit invalidation.
    assert!(!is_node_realtime_executable(&graph, &cache, a));
    assert!(!is_node_realtime_executable(&graph, &cache, b));
    assert!(get_outputs(&cache, b).is_some());
}

#[test]
fn remove_node_drops_edges_and_entry() {
    let mut graph = Graph::new();
    let mut cache = ComputeCache::new();
    let mut viewer = EFViewer;
    let source = graph.insert_node(EFNode::Source(SourceNode::new(vec![7])));
    let a = graph.insert_node(EFNode::Sma(SMANode::default()));
    assert!(viewer.connect(out0(source), in0(a), &mut graph, &mut cache));
    assert!(cache.contains(source.0));
    assert!(remove_node(&mut graph, &mut cache, source));
    assert_eq!(graph.edges.len(), 0);
    assert!(!cache.contains(source.0));
    assert!(graph.get_node(source).is_none());
    // Identities of other nodes are untouched.
    assert!(graph.get_node(a).is_some());
    assert!(!remove_node(&mut graph, &mut cache, source));
}

#[test]
fn failing_node_is_contained_and_retried_on_next_trigger() {
    let mut graph = Graph::new();
    let mut cache = ComputeCache::new();
    let mut viewer = EFViewer;
    let source = graph.insert_node(EFNode::Source(SourceNode::new(vec![i64::MAX])));
    let transform = graph.insert_node(EFNode::Transform(TransformNode::default()));
    let preview = graph.insert_node(EFNode::Preview(PreviewNode::default()));
    assert!(viewer.connect(out0(source), in0(transform), &mut graph, &mut cache));
    assert!(viewer.connect(out0(transform), in0(preview), &mut graph, &mut cache));
    // Doubling i64::MAX overflows: the transform fails, stays uncached,
    // and leaves everything downstream of it not ready. The source's own
    // entry is unaffected.
    assert!(cache.contains(source.0));
    assert!(!cache.contains(transform.0));
    assert!(!is_node_realtime_executable(&graph, &cache, preview));
    // The next external trigger retries exactly the failing node.
    assert_eq!(run_nodes(&graph, &mut cache), 1);
    assert!(!cache.contains(transform.0));
}

#[test]
fn source_nodes_are_always_ready() {
    let mut graph = Graph::new();
    let cache = ComputeCache::new();
    let source = graph.insert_node(EFNode::Source(SourceNode::new(vec![])));
    let sma = graph.insert_node(EFNode::Sma(SMANode::default()));
    assert!(is_node_realtime_executable(&graph, &cache, source));
    assert!(!is_node_realtime_executable(&graph, &cache, sma));
    assert!(!is_node_realtime_executable(&graph, &cache, NodeId(99)));
}
