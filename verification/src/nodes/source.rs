//! A source node that emits a configured constant decimal sequence.

use crate::node_trait::{EvalError, NodeDataType, NodeDataTypeWithValue, ValueV};
use vstd::prelude::*;

verus! {

#[derive(Debug)]
pub struct SourceNode {
    pub values: Vec<i64>,
}

impl Default for SourceNode {
    fn default() -> (r: Self)
        ensures
            r.values@.len() == 0,
    {
        SourceNode { values: Vec::new() }
    }
}

impl SourceNode {
    /// A source node that always emits the given sequence.
    pub fn new(values: Vec<i64>) -> (r: Self)
        ensures
            r.values@ == values@,
    {
        SourceNode { values }
    }

    pub open spec fn spec_process(self, ins: Seq<ValueV>) -> Result<Seq<ValueV>, EvalError> {
        if ins.len() != 0 {
            Err(EvalError::BadArity)
        } else {
            Ok(seq![ValueV::DecimalSequence(self.values@)])
        }
    }

    pub fn get_name(&self) -> &'static str {
        "SourceNode"
    }

    pub fn get_inputs(&self) -> (r: Vec<(&'static str, NodeDataType)>)
        ensures
            r@.len() == 0,
    {
        Vec::new()
    }

    pub fn get_outputs(&self) -> (r: Vec<(&'static str, NodeDataType)>)
        ensures
            r@.len() == 1,
            r@[0].1 == NodeDataType::DecimalSequence,
    {
        vec![("Values", NodeDataType::DecimalSequence)]
    }

    pub fn process_data(&self, input_args: &Vec<NodeDataTypeWithValue>) -> (r: Result<
        Vec<NodeDataTypeWithValue>,
        EvalError,
    >)
        ensures
            crate::node_trait::result_matches(
                r,
                self.spec_process(crate::node_trait::views_of(input_args@)),
            ),
    {
        if input_args.len() != 0 {
            return Err(EvalError::BadArity);
        }
        let out = self.values.clone();
        proof {
            assert(out@ =~= self.values@);
        }
        let r = vec![NodeDataTypeWithValue::DecimalSequence(out)];
        proof {
            assert(crate::node_trait::views_of(r@) =~= seq![r@[0]@]);
        }
        Ok(r)
    }
}

} // verus!
