use emeraldfundstudio::graph::{Graph, InPinId, NodeId, OutPinId};
use emeraldfundstudio::node_editor::EFViewer;
use emeraldfundstudio::node_trait::{EFNode, NodeDataTypeWithValue};
use emeraldfundstudio::nodes::compare::{CompareMode, CompareNode};
use emeraldfundstudio::nodes::execute_position::ExecutePositionNode;
use emeraldfundstudio::nodes::preview::PreviewNode;
use emeraldfundstudio::nodes::source::SourceNode;
use emeraldfundstudio::nodes::to_signal::{ToSignalMode, ToSignalNode};
use emeraldfundstudio::realtime::{
    filter_already_executed, get_outputs, get_preview_outputs, signals_as_markers, ComputeCache,
};
use emeraldfundstudio::traits::IntoArc;

#[test]
fn cache_insert_get_remove_clear() {
    let mut cache = ComputeCache::new();
    assert!(!cache.contains(3));
    assert!(get_outputs(&cache, NodeId(3)).is_none());
    cache.insert(3, vec![NodeDataTypeWithValue::Signal(vec![1, 0])]);
    assert!(cache.contains(3));
    let outs = get_outputs(&cache, NodeId(3)).unwrap();
    match &outs[0] {
        NodeDataTypeWithValue::Signal(s) => assert_eq!(s, &vec![1, 0]),
        _ => panic!("expected a signal"),
    }
    // Re-insertion overwrites the entry.
    cache.insert(3, vec![]);
    assert_eq!(get_outputs(&cache, NodeId(3)).unwrap().len(), 0);
    cache.remove(3);
    assert!(!cache.contains(3));
    cache.insert(1, vec![]);
    cache.insert(2, vec![]);
    cache.clear();
    assert!(!cache.contains(1) && !cache.contains(2));
}

#[test]
fn filter_already_executed_keeps_uncached_nodes() {
    let mut cache = ComputeCache::new();
    cache.insert(1, vec![]);
    cache.insert(4, vec![]);
    let mut nodes = vec![NodeId(0), NodeId(1), NodeId(2), NodeId(4)];
    filter_already_executed(&mut nodes, &cache);
    assert_eq!(nodes, vec![NodeId(0), NodeId(2)]);
}

#[test]
fn preview_outputs_report_colour_and_value() {
    let mut graph = Graph::new();
    let mut cache = ComputeCache::new();
    let mut viewer = EFViewer;
    let source = graph.insert_node(EFNode::Source(SourceNode::new(vec![9, 8])));
    let preview = graph.insert_node(EFNode::Preview(PreviewNode::new([1, 2, 3])));
    assert!(get_preview_outputs(&graph, &cache).is_empty());
    assert!(viewer.connect(
        OutPinId { node: source, output: 0 },
        InPinId { node: preview, input: 0 },
        &mut graph,
        &mut cache
    ));
    let previews = get_preview_outputs(&graph, &cache);
    assert_eq!(previews.len(), 1);
    assert_eq!(previews[0].0, [1, 2, 3]);
    match &previews[0].1 {
        NodeDataTypeWithValue::DecimalSequence(v) => assert_eq!(v, &vec![9, 8]),
        _ => panic!("expected a decimal sequence"),
    }
}

#[test]
fn signal_markers_report_buy_and_sell_steps() {
    let mut graph = Graph::new();
    let mut cache = ComputeCache::new();
    let mut viewer = EFViewer;
    let a = graph.insert_node(EFNode::Source(SourceNode::new(vec![1, 5, 3])));
    let b = graph.insert_node(EFNode::Source(SourceNode::new(vec![2, 5, 1])));
    let cmp = graph.insert_node(EFNode::Compare(CompareNode { mode: CompareMode::Equal }));
    let sig = graph.insert_node(EFNode::ToSignal(ToSignalNode { mode: ToSignalMode::Sell }));
    let exec = graph.insert_node(EFNode::ExecutePosition(ExecutePositionNode::default()));
    let out0 = |n| OutPinId { node: n, output: 0 };
    assert!(viewer.connect(out0(a), InPinId { node: cmp, input: 0 }, &mut graph, &mut cache));
    assert!(viewer.connect(out0(b), InPinId { node: cmp, input: 1 }, &mut graph, &mut cache));
    assert!(viewer.connect(out0(cmp), InPinId { node: sig, input: 0 }, &mut graph, &mut cache));
    assert!(viewer.connect(out0(sig), InPinId { node: exec, input: 0 }, &mut graph, &mut cache));
    // Only the middle step compares equal, so the sell signal fires there.
    let markers = signals_as_markers(&graph, &cache);
    assert_eq!(markers.len(), 1);
    assert_eq!(markers[0].0, vec![1]);
    assert!(markers[0].1.is_empty());
}

#[test]
fn into_arc_shares_the_value() {
    let arc = vec![1i64, 2].into_arc();
    assert_eq!(*arc, vec![1, 2]);
}
