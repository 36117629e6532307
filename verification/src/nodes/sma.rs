//! A smoothing stage over a decimal sequence. It passes its input
//! through unchanged: one sequence in, the same sequence out.

use crate::node_trait::{EvalError, NodeDataType, NodeDataTypeWithValue, ValueV};
use vstd::prelude::*;

verus! {

#[derive(Debug)]
pub struct SMANode;

impl Default for SMANode {
    fn default() -> (r: Self)
        ensures
            r == (SMANode {}),
    {
        SMANode {}
    }
}

impl SMANode {
    pub open spec fn spec_process(self, ins: Seq<ValueV>) -> Result<Seq<ValueV>, EvalError> {
        if ins.len() != 1 {
            Err(EvalError::BadArity)
        } else {
            Ok(seq![ins[0]])
        }
    }

    pub fn get_name(&self) -> &'static str {
        "SMANode"
    }

    pub fn get_inputs(&self) -> (r: Vec<(&'static str, NodeDataType)>)
        ensures
            r@.len() == 1,
            r@[0].1 == NodeDataType::DecimalSequence,
    {
        vec![("Input", NodeDataType::DecimalSequence)]
    }

    pub fn get_outputs(&self) -> (r: Vec<(&'static str, NodeDataType)>)
        ensures
            r@.len() == 1,
            r@[0].1 == NodeDataType::DecimalSequence,
    {
        vec![("Output", NodeDataType::DecimalSequence)]
    }

    pub fn process_data(&self, input_args: &Vec<NodeDataTypeWithValue>) -> (r: Result<
        Vec<NodeDataTypeWithValue>,
        EvalError,
    >)
        ensures
            crate::node_trait::result_matches(
                r,
                self.spec_process(crate::node_trait::views_of(input_args@)),
            ),
    {
        if input_args.len() != 1 {
            return Err(EvalError::BadArity);
        }
        let out = input_args[0].clone();
        let r = vec![out];
        proof {
            assert(crate::node_trait::views_of(r@) =~= seq![input_args@[0]@]);
        }
        Ok(r)
    }
}

} // verus!
