use emeraldfundstudio::candles::Frame;
use emeraldfundstudio::node_trait::{EFNode, EvalError, NodeDataType, NodeDataTypeWithValue};
use emeraldfundstudio::nodes::compare::{CompareMode, CompareNode};
use emeraldfundstudio::nodes::execute_position::ExecutePositionNode;
use emeraldfundstudio::nodes::fuse_signals::FuseSignalsNode;
use emeraldfundstudio::nodes::market_data::MarketDataNode;
use emeraldfundstudio::nodes::sma::SMANode;
use emeraldfundstudio::nodes::source::SourceNode;
use emeraldfundstudio::nodes::split_candles::SplitCandlesNode;
use emeraldfundstudio::nodes::to_signal::{ToSignalMode, ToSignalNode};
use emeraldfundstudio::nodes::transform::TransformNode;

fn dec(values: Vec<i64>) -> NodeDataTypeWithValue {
    NodeDataTypeWithValue::DecimalSequence(values)
}

fn small_frame() -> Frame {
    Frame::new(
        vec![10, 20],
        vec![15, 25],
        vec![5, 18],
        vec![12, 22],
        vec![100, 200],
        vec![60, 120],
    )
}

fn expect_mask(r: Result<Vec<NodeDataTypeWithValue>, EvalError>) -> Vec<bool> {
    let outs = r.expect("evaluation should succeed");
    assert_eq!(outs.len(), 1);
    match &outs[0] {
        NodeDataTypeWithValue::Mask(m) => m.clone(),
        _ => panic!("expected a mask"),
    }
}

fn expect_signal(r: Result<Vec<NodeDataTypeWithValue>, EvalError>) -> Vec<i8> {
    let outs = r.expect("evaluation should succeed");
    assert_eq!(outs.len(), 1);
    match &outs[0] {
        NodeDataTypeWithValue::Signal(s) => s.clone(),
        _ => panic!("expected a signal"),
    }
}

#[test]
fn compare_modes_produce_exact_masks() {
    let ins = vec![dec(vec![1, 5, 3]), dec(vec![2, 5, 1])];
    let eq = CompareNode { mode: CompareMode::Equal };
    assert_eq!(expect_mask(eq.process_data(&ins)), vec![false, true, false]);
    let ne = CompareNode { mode: CompareMode::NotEqual };
    assert_eq!(expect_mask(ne.process_data(&ins)), vec![true, false, true]);
    let lt = CompareNode { mode: CompareMode::LessThan };
    assert_eq!(expect_mask(lt.process_data(&ins)), vec![true, false, false]);
    let gt = CompareNode { mode: CompareMode::BiggerThan };
    assert_eq!(expect_mask(gt.process_data(&ins)), vec![false, false, true]);
}

#[test]
fn compare_rejects_bad_inputs() {
    let node = CompareNode::default();
    assert_eq!(node.process_data(&vec![]).unwrap_err(), EvalError::BadArity);
    assert_eq!(
        node.process_data(&vec![dec(vec![1])]).unwrap_err(),
        EvalError::BadArity
    );
    assert_eq!(
        node.process_data(&vec![dec(vec![1, 2]), dec(vec![1])])
            .unwrap_err(),
        EvalError::LengthMismatch
    );
    assert_eq!(
        node.process_data(&vec![
            NodeDataTypeWithValue::Mask(vec![true]),
            dec(vec![1])
        ])
        .unwrap_err(),
        EvalError::BadKind
    );
}

#[test]
fn to_signal_maps_mask_bits() {
    let mask = vec![NodeDataTypeWithValue::Mask(vec![true, false, true])];
    let buy = ToSignalNode { mode: ToSignalMode::Buy };
    assert_eq!(expect_signal(buy.process_data(&mask)), vec![1, 0, 1]);
    let sell = ToSignalNode { mode: ToSignalMode::Sell };
    assert_eq!(expect_signal(sell.process_data(&mask)), vec![-1, 0, -1]);
    assert_eq!(
        sell.process_data(&vec![dec(vec![1])]).unwrap_err(),
        EvalError::BadKind
    );
}

#[test]
fn fuse_signals_prefers_first_non_hold() {
    let node = FuseSignalsNode::default();
    let ins = vec![
        NodeDataTypeWithValue::Signal(vec![0, 1, -1, 0]),
        NodeDataTypeWithValue::Signal(vec![1, 0, 1]),
    ];
    // The two inputs are walked in step; the longer tail is dropped.
    assert_eq!(expect_signal(node.process_data(&ins)), vec![1, 1, -1]);
    assert_eq!(
        node.process_data(&vec![NodeDataTypeWithValue::Signal(vec![])])
            .unwrap_err(),
        EvalError::BadArity
    );
}

#[test]
fn transform_doubles_and_detects_overflow() {
    let node = TransformNode::default();
    let ok = node.process_data(&vec![dec(vec![-3, 0, 21])]).unwrap();
    match &ok[0] {
        NodeDataTypeWithValue::DecimalSequence(v) => assert_eq!(v, &vec![-6, 0, 42]),
        _ => panic!("expected a decimal sequence"),
    }
    assert_eq!(
        node.process_data(&vec![dec(vec![1, i64::MAX])]).unwrap_err(),
        EvalError::Overflow
    );
    assert_eq!(
        node.process_data(&vec![dec(vec![i64::MIN])]).unwrap_err(),
        EvalError::Overflow
    );
    // The edge values still double safely.
    let edge = node
        .process_data(&vec![dec(vec![i64::MAX / 2, i64::MIN / 2])])
        .unwrap();
    match &edge[0] {
        NodeDataTypeWithValue::DecimalSequence(v) => {
            assert_eq!(v, &vec![(i64::MAX / 2) * 2, i64::MIN]);
        },
        _ => panic!("expected a decimal sequence"),
    }
}

#[test]
fn sma_echoes_its_input() {
    let node = SMANode::default();
    let outs = node.process_data(&vec![dec(vec![4, 5])]).unwrap();
    assert_eq!(outs.len(), 1);
    match &outs[0] {
        NodeDataTypeWithValue::DecimalSequence(v) => assert_eq!(v, &vec![4, 5]),
        _ => panic!("expected a decimal sequence"),
    }
    assert_eq!(node.process_data(&vec![]).unwrap_err(), EvalError::BadArity);
}

#[test]
fn source_emits_configured_values() {
    let node = SourceNode::new(vec![1, 2, 3]);
    let outs = node.process_data(&vec![]).unwrap();
    match &outs[0] {
        NodeDataTypeWithValue::DecimalSequence(v) => assert_eq!(v, &vec![1, 2, 3]),
        _ => panic!("expected a decimal sequence"),
    }
    assert_eq!(
        node.process_data(&vec![dec(vec![])]).unwrap_err(),
        EvalError::BadArity
    );
}

#[test]
fn market_data_emits_its_frame() {
    let node = MarketDataNode::new(small_frame());
    let outs = node.process_data(&vec![]).unwrap();
    assert_eq!(outs.len(), 1);
    match &outs[0] {
        NodeDataTypeWithValue::Candles(f) => {
            assert_eq!(f.len(), 2);
            assert_eq!(f.opens, vec![10, 20]);
            assert_eq!(f.timestamps, vec![60, 120]);
        },
        _ => panic!("expected candles"),
    }
}

#[test]
fn split_candles_yields_five_columns() {
    let node = SplitCandlesNode::default();
    let ins = vec![NodeDataTypeWithValue::Candles(small_frame())];
    let outs = node.process_data(&ins).unwrap();
    assert_eq!(outs.len(), 5);
    let expect = [
        vec![10i64, 20],
        vec![15, 25],
        vec![5, 18],
        vec![12, 22],
        vec![100, 200],
    ];
    for (out, want) in outs.iter().zip(expect.iter()) {
        match out {
            NodeDataTypeWithValue::DecimalSequence(v) => assert_eq!(v, want),
            _ => panic!("expected a decimal sequence"),
        }
    }
    assert_eq!(
        node.process_data(&vec![dec(vec![1])]).unwrap_err(),
        EvalError::BadKind
    );
}

#[test]
fn sinks_produce_no_outputs() {
    let exec = ExecutePositionNode::default();
    let outs = exec
        .process_data(&vec![NodeDataTypeWithValue::Signal(vec![1])])
        .unwrap();
    assert!(outs.is_empty());
    assert_eq!(exec.process_data(&vec![]).unwrap_err(), EvalError::BadArity);
}

#[test]
fn empty_sequences_flow_through() {
    let eq = CompareNode { mode: CompareMode::Equal };
    assert!(expect_mask(eq.process_data(&vec![dec(vec![]), dec(vec![])])).is_empty());
    let double = TransformNode::default();
    let outs = double.process_data(&vec![dec(vec![])]).unwrap();
    match &outs[0] {
        NodeDataTypeWithValue::DecimalSequence(v) => assert!(v.is_empty()),
        _ => panic!("expected a decimal sequence"),
    }
    let fuse = FuseSignalsNode::default();
    let ins = vec![
        NodeDataTypeWithValue::Signal(vec![]),
        NodeDataTypeWithValue::Signal(vec![1, -1]),
    ];
    assert!(expect_signal(fuse.process_data(&ins)).is_empty());
}

#[test]
fn slot_declarations_match_kinds() {
    let node = EFNode::Compare(CompareNode::default());
    let ins = node.get_inputs();
    assert_eq!(ins.len(), 2);
    assert_eq!(ins[0].0, "Seq 1");
    assert_eq!(ins[0].1, NodeDataType::DecimalSequence);
    let outs = node.get_outputs();
    assert_eq!(outs.len(), 1);
    assert_eq!(outs[0].1, NodeDataType::Mask);
    assert_eq!(node.get_name(), "Compare");
}
