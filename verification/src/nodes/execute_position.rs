//! A sink node that takes a signal sequence to act on. Order placement is
//! outside the engine; the node itself produces no outputs.

use crate::node_trait::{EvalError, NodeDataType, NodeDataTypeWithValue, ValueV};
use vstd::prelude::*;

verus! {

#[derive(Debug)]
pub struct ExecutePositionNode;

impl Default for ExecutePositionNode {
    fn default() -> (r: Self)
        ensures
            r == (ExecutePositionNode {}),
    {
        ExecutePositionNode {}
    }
}

impl ExecutePositionNode {
    pub open spec fn spec_process(self, ins: Seq<ValueV>) -> Result<Seq<ValueV>, EvalError> {
        if ins.len() != 1 {
            Err(EvalError::BadArity)
        } else {
            Ok(Seq::empty())
        }
    }

    pub fn get_name(&self) -> &'static str {
        "ExecutePositionNode"
    }

    pub fn get_inputs(&self) -> (r: Vec<(&'static str, NodeDataType)>)
        ensures
            r@.len() == 1,
            r@[0].1 == NodeDataType::Signal,
    {
        vec![("Signal", NodeDataType::Signal)]
    }

    pub fn get_outputs(&self) -> (r: Vec<(&'static str, NodeDataType)>)
        ensures
            r@.len() == 0,
    {
        Vec::new()
    }

    pub fn process_data(&self, input_args: &Vec<NodeDataTypeWithValue>) -> (r: Result<
        Vec<NodeDataTypeWithValue>,
        EvalError,
    >)
        ensures
            crate::node_trait::result_matches(
                r,
                self.spec_process(crate::node_trait::views_of(input_args@)),
            ),
    {
        if input_args.len() != 1 {
            return Err(EvalError::BadArity);
        }
        let r: Vec<NodeDataTypeWithValue> = Vec::new();
        proof {
            assert(crate::node_trait::views_of(r@) =~= Seq::<ValueV>::empty());
        }
        Ok(r)
    }
}

} // verus!
