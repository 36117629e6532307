//! Splits a frame of candles into its five decimal columns.

use crate::node_trait::{EvalError, NodeDataType, NodeDataTypeWithValue, ValueV};
use vstd::prelude::*;

verus! {

#[derive(Debug)]
pub struct SplitCandlesNode;

impl Default for SplitCandlesNode {
    fn default() -> (r: Self)
        ensures
            r == (SplitCandlesNode {}),
    {
        SplitCandlesNode {}
    }
}

impl SplitCandlesNode {
    pub open spec fn spec_process(self, ins: Seq<ValueV>) -> Result<Seq<ValueV>, EvalError> {
        if ins.len() != 1 {
            Err(EvalError::BadArity)
        } else {
            match ins[0] {
                ValueV::Candles(f) => Ok(
                    seq![
                        ValueV::DecimalSequence(f.opens),
                        ValueV::DecimalSequence(f.highs),
                        ValueV::DecimalSequence(f.lows),
                        ValueV::DecimalSequence(f.closes),
                        ValueV::DecimalSequence(f.volumes),
                    ],
                ),
                _ => Err(EvalError::BadKind),
            }
        }
    }

    pub fn get_name(&self) -> &'static str {
        "SplitCandlesNode"
    }

    pub fn get_inputs(&self) -> (r: Vec<(&'static str, NodeDataType)>)
        ensures
            r@.len() == 1,
            r@[0].1 == NodeDataType::Candles,
    {
        vec![("Candles", NodeDataType::Candles)]
    }

    pub fn get_outputs(&self) -> (r: Vec<(&'static str, NodeDataType)>)
        ensures
            r@.len() == 5,
            forall|k: int| 0 <= k < 5 ==> r@[k].1 == NodeDataType::DecimalSequence,
    {
        vec![
            ("Open", NodeDataType::DecimalSequence),
            ("High", NodeDataType::DecimalSequence),
            ("Low", NodeDataType::DecimalSequence),
            ("Close", NodeDataType::DecimalSequence),
            ("Volume", NodeDataType::DecimalSequence),
        ]
    }

    pub fn process_data(&self, input_args: &Vec<NodeDataTypeWithValue>) -> (r: Result<
        Vec<NodeDataTypeWithValue>,
        EvalError,
    >)
        ensures
            crate::node_trait::result_matches(
                r,
                self.spec_process(crate::node_trait::views_of(input_args@)),
            ),
    {
        if input_args.len() != 1 {
            return Err(EvalError::BadArity);
        }
        match &input_args[0] {
            NodeDataTypeWithValue::Candles(f) => {
                let opens = f.opens.clone();
                let highs = f.highs.clone();
                let lows = f.lows.clone();
                let closes = f.closes.clone();
                let volumes = f.volumes.clone();
                proof {
                    assert(opens@ =~= f.opens@);
                    assert(highs@ =~= f.highs@);
                    assert(lows@ =~= f.lows@);
                    assert(closes@ =~= f.closes@);
                    assert(volumes@ =~= f.volumes@);
                }
                let r = vec![
                    NodeDataTypeWithValue::DecimalSequence(opens),
                    NodeDataTypeWithValue::DecimalSequence(highs),
                    NodeDataTypeWithValue::DecimalSequence(lows),
                    NodeDataTypeWithValue::DecimalSequence(closes),
                    NodeDataTypeWithValue::DecimalSequence(volumes),
                ];
                proof {
                    assert(crate::node_trait::views_of(r@) =~= seq![
                        r@[0]@,
                        r@[1]@,
                        r@[2]@,
                        r@[3]@,
                        r@[4]@,
                    ]);
                }
                Ok(r)
            },
            _ => Err(EvalError::BadKind),
        }
    }
}

} // verus!
