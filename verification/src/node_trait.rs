//! Data kinds, runtime values, and the closed set of node behaviours.

use crate::candles::{Frame, FrameV};
use crate::nodes::compare::CompareNode;
use crate::nodes::execute_position::ExecutePositionNode;
use crate::nodes::fuse_signals::FuseSignalsNode;
use crate::nodes::market_data::MarketDataNode;
use crate::nodes::preview::PreviewNode;
use crate::nodes::sma::SMANode;
use crate::nodes::source::SourceNode;
use crate::nodes::split_candles::SplitCandlesNode;
use crate::nodes::to_signal::ToSignalNode;
use crate::nodes::transform::TransformNode;
use std::sync::Arc;
use vstd::prelude::*;

verus! {

/// A boolean per step: where a condition held along a sequence.
pub type Mask = Vec<bool>;

/// A direction per step: 1 to buy, -1 to sell, 0 to hold.
pub type Signal = Vec<i8>;

/// Fixed-point decimals, one per step.
pub type DecimalSequence = Vec<crate::Decimal>;

/// The closed set of value categories a slot can carry. Two slots are
/// connectable only if their kinds match exactly.
#[derive(Clone, Copy, PartialEq, Eq, Structural, Debug)]
pub enum NodeDataType {
    Mask,
    Signal,
    DecimalSequence,
    Candles,
}

/// The spec-level image of a [`NodeDataTypeWithValue`].
pub enum ValueV {
    Mask(Seq<bool>),
    Signal(Seq<i8>),
    DecimalSequence(Seq<i64>),
    Candles(FrameV),
}

impl ValueV {
    /// The kind this value belongs to.
    pub open spec fn kind(self) -> NodeDataType {
        match self {
            ValueV::Mask(_) => NodeDataType::Mask,
            ValueV::Signal(_) => NodeDataType::Signal,
            ValueV::DecimalSequence(_) => NodeDataType::DecimalSequence,
            ValueV::Candles(_) => NodeDataType::Candles,
        }
    }
}

/// A runtime payload produced by a node: a tagged union over the kind set.
/// Masks are sequences of booleans, signals carry -1 (sell), 0 (hold) or
/// 1 (buy) per step, decimal sequences are fixed-point decimals, and
/// candles are a whole tabular frame.
#[derive(Debug)]
pub enum NodeDataTypeWithValue {
    Mask(Mask),
    Signal(Signal),
    DecimalSequence(DecimalSequence),
    Candles(Frame),
}

/// A cached value shared read-only across consumers.
pub type CheapCloneNodeDataTypeWithValue = Arc<NodeDataTypeWithValue>;

impl View for NodeDataTypeWithValue {
    type V = ValueV;

    open spec fn view(&self) -> ValueV {
        match self {
            NodeDataTypeWithValue::Mask(v) => ValueV::Mask(v@),
            NodeDataTypeWithValue::Signal(v) => ValueV::Signal(v@),
            NodeDataTypeWithValue::DecimalSequence(v) => ValueV::DecimalSequence(v@),
            NodeDataTypeWithValue::Candles(f) => ValueV::Candles(f@),
        }
    }
}

impl Clone for NodeDataTypeWithValue {
    fn clone(&self) -> (r: Self)
        ensures
            r@ == self@,
    {
        match self {
            NodeDataTypeWithValue::Mask(v) => {
                let c = v.clone();
                assert(c@ =~= v@);
                NodeDataTypeWithValue::Mask(c)
            },
            NodeDataTypeWithValue::Signal(v) => {
                let c = v.clone();
                assert(c@ =~= v@);
                NodeDataTypeWithValue::Signal(c)
            },
            NodeDataTypeWithValue::DecimalSequence(v) => {
                let c = v.clone();
                assert(c@ =~= v@);
                NodeDataTypeWithValue::DecimalSequence(c)
            },
            NodeDataTypeWithValue::Candles(f) => NodeDataTypeWithValue::Candles(f.clone_frame()),
        }
    }
}

impl NodeDataTypeWithValue {
    /// The kind this value belongs to.
    pub fn kind(&self) -> (r: NodeDataType)
        ensures
            r == self@.kind(),
    {
        match self {
            NodeDataTypeWithValue::Mask(_) => NodeDataType::Mask,
            NodeDataTypeWithValue::Signal(_) => NodeDataType::Signal,
            NodeDataTypeWithValue::DecimalSequence(_) => NodeDataType::DecimalSequence,
            NodeDataTypeWithValue::Candles(_) => NodeDataType::Candles,
        }
    }
}

/// The spec-level image of a sequence of values.
pub open spec fn views_of(s: Seq<NodeDataTypeWithValue>) -> Seq<ValueV> {
    s.map_values(|v: NodeDataTypeWithValue| v@)
}

/// Why a node's evaluation was rejected. A failing node is simply not
/// cached; the failure never aborts a scheduler pass.
#[derive(Clone, Copy, PartialEq, Eq, Structural, Debug)]
pub enum EvalError {
    /// The node was handed fewer or more inputs than it declares.
    BadArity,
    /// An input value was not of the declared kind.
    BadKind,
    /// Two sequence inputs that must be aligned have different lengths.
    LengthMismatch,
    /// A computed decimal does not fit the value range.
    Overflow,
}

/// Whether an executable evaluation result is the image of a spec-level
/// one: same success or failure, and on success the same values.
pub open spec fn result_matches(
    r: Result<Vec<NodeDataTypeWithValue>, EvalError>,
    s: Result<Seq<ValueV>, EvalError>,
) -> bool {
    match (r, s) {
        (Ok(v), Ok(sv)) => views_of(v@) == sv,
        (Err(e), Err(se)) => e == se,
        _ => false,
    }
}

/// One node behaviour out of the closed set. Dispatch is by variant: each
/// variant carries the configuration of its node type.
#[derive(Debug)]
pub enum EFNode {
    Sma(SMANode),
    Compare(CompareNode),
    MarketData(MarketDataNode),
    ExecutePosition(ExecutePositionNode),
    SplitCandles(SplitCandlesNode),
    ToSignal(ToSignalNode),
    FuseSignals(FuseSignalsNode),
    Preview(PreviewNode),
    Source(SourceNode),
    Transform(TransformNode),
}

impl EFNode {
    /// The kinds of the node's input slots, in slot order. Fixed for the
    /// node's lifetime: configuration never alters arity or kinds.
    pub open spec fn spec_input_kinds(self) -> Seq<NodeDataType> {
        match self {
            EFNode::Sma(_) => seq![NodeDataType::DecimalSequence],
            EFNode::Compare(_) => seq![
                NodeDataType::DecimalSequence,
                NodeDataType::DecimalSequence,
            ],
            EFNode::MarketData(_) => seq![],
            EFNode::ExecutePosition(_) => seq![NodeDataType::Signal],
            EFNode::SplitCandles(_) => seq![NodeDataType::Candles],
            EFNode::ToSignal(_) => seq![NodeDataType::Mask],
            EFNode::FuseSignals(_) => seq![NodeDataType::Signal, NodeDataType::Signal],
            EFNode::Preview(_) => seq![NodeDataType::DecimalSequence],
            EFNode::Source(_) => seq![],
            EFNode::Transform(_) => seq![NodeDataType::DecimalSequence],
        }
    }

    /// The kinds of the node's output slots, in slot order.
    pub open spec fn spec_output_kinds(self) -> Seq<NodeDataType> {
        match self {
            EFNode::Sma(_) => seq![NodeDataType::DecimalSequence],
            EFNode::Compare(_) => seq![NodeDataType::Mask],
            EFNode::MarketData(_) => seq![NodeDataType::Candles],
            EFNode::ExecutePosition(_) => seq![],
            EFNode::SplitCandles(_) => seq![
                NodeDataType::DecimalSequence,
                NodeDataType::DecimalSequence,
                NodeDataType::DecimalSequence,
                NodeDataType::DecimalSequence,
                NodeDataType::DecimalSequence,
            ],
            EFNode::ToSignal(_) => seq![NodeDataType::Signal],
            EFNode::FuseSignals(_) => seq![NodeDataType::Signal],
            EFNode::Preview(_) => seq![],
            EFNode::Source(_) => seq![NodeDataType::DecimalSequence],
            EFNode::Transform(_) => seq![NodeDataType::DecimalSequence],
        }
    }

    /// What evaluating the node on the given inputs yields: either its
    /// outputs, one per output slot, or the error it is rejected with.
    pub open spec fn spec_process(self, ins: Seq<ValueV>) -> Result<Seq<ValueV>, EvalError> {
        match self {
            EFNode::Sma(n) => n.spec_process(ins),
            EFNode::Compare(n) => n.spec_process(ins),
            EFNode::MarketData(n) => n.spec_process(ins),
            EFNode::ExecutePosition(n) => n.spec_process(ins),
            EFNode::SplitCandles(n) => n.spec_process(ins),
            EFNode::ToSignal(n) => n.spec_process(ins),
            EFNode::FuseSignals(n) => n.spec_process(ins),
            EFNode::Preview(n) => n.spec_process(ins),
            EFNode::Source(n) => n.spec_process(ins),
            EFNode::Transform(n) => n.spec_process(ins),
        }
    }

    pub fn get_name(&self) -> (r: &'static str) {
        match self {
            EFNode::Sma(n) => n.get_name(),
            EFNode::Compare(n) => n.get_name(),
            EFNode::MarketData(n) => n.get_name(),
            EFNode::ExecutePosition(n) => n.get_name(),
            EFNode::SplitCandles(n) => n.get_name(),
            EFNode::ToSignal(n) => n.get_name(),
            EFNode::FuseSignals(n) => n.get_name(),
            EFNode::Preview(n) => n.get_name(),
            EFNode::Source(n) => n.get_name(),
            EFNode::Transform(n) => n.get_name(),
        }
    }

    /// The node's input slots: a label for display and the slot's kind.
    pub fn get_inputs(&self) -> (r: Vec<(&'static str, NodeDataType)>)
        ensures
            r@.len() == self.spec_input_kinds().len(),
            forall|k: int| 0 <= k < r@.len() ==> r@[k].1 == self.spec_input_kinds()[k],
    {
        match self {
            EFNode::Sma(n) => n.get_inputs(),
            EFNode::Compare(n) => n.get_inputs(),
            EFNode::MarketData(n) => n.get_inputs(),
            EFNode::ExecutePosition(n) => n.get_inputs(),
            EFNode::SplitCandles(n) => n.get_inputs(),
            EFNode::ToSignal(n) => n.get_inputs(),
            EFNode::FuseSignals(n) => n.get_inputs(),
            EFNode::Preview(n) => n.get_inputs(),
            EFNode::Source(n) => n.get_inputs(),
            EFNode::Transform(n) => n.get_inputs(),
        }
    }

    /// The node's output slots: a label for display and the slot's kind.
    pub fn get_outputs(&self) -> (r: Vec<(&'static str, NodeDataType)>)
        ensures
            r@.len() == self.spec_output_kinds().len(),
            forall|k: int| 0 <= k < r@.len() ==> r@[k].1 == self.spec_output_kinds()[k],
    {
        match self {
            EFNode::Sma(n) => n.get_outputs(),
            EFNode::Compare(n) => n.get_outputs(),
            EFNode::MarketData(n) => n.get_outputs(),
            EFNode::ExecutePosition(n) => n.get_outputs(),
            EFNode::SplitCandles(n) => n.get_outputs(),
            EFNode::ToSignal(n) => n.get_outputs(),
            EFNode::FuseSignals(n) => n.get_outputs(),
            EFNode::Preview(n) => n.get_outputs(),
            EFNode::Source(n) => n.get_outputs(),
            EFNode::Transform(n) => n.get_outputs(),
        }
    }

    /// Evaluates the node on the given inputs. Pure with respect to the
    /// inputs and the node's configuration, which is what makes
    /// memoization of the result valid.
    pub fn process_data(&self, input_args: &Vec<NodeDataTypeWithValue>) -> (r: Result<
        Vec<NodeDataTypeWithValue>,
        EvalError,
    >)
        ensures
            result_matches(r, self.spec_process(views_of(input_args@))),
    {
        match self {
            EFNode::Sma(n) => n.process_data(input_args),
            EFNode::Compare(n) => n.process_data(input_args),
            EFNode::MarketData(n) => n.process_data(input_args),
            EFNode::ExecutePosition(n) => n.process_data(input_args),
            EFNode::SplitCandles(n) => n.process_data(input_args),
            EFNode::ToSignal(n) => n.process_data(input_args),
            EFNode::FuseSignals(n) => n.process_data(input_args),
            EFNode::Preview(n) => n.process_data(input_args),
            EFNode::Source(n) => n.process_data(input_args),
            EFNode::Transform(n) => n.process_data(input_args),
        }
    }
}

/// A successful evaluation yields exactly one value per declared output
/// slot, whatever the inputs were: this is what lets a cache entry's
/// length stand in for the node's output arity.
pub proof fn lemma_process_output_len(n: EFNode, ins: Seq<ValueV>)
    ensures
        n.spec_process(ins) matches Ok(outs) ==> outs.len() == n.spec_output_kinds().len(),
{
}

} // verus!
