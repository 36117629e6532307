//! A sink node that marks a decimal sequence for display, with a
//! configurable plot colour. Rendering is outside the engine; the node
//! itself produces no outputs.

use crate::node_trait::{EvalError, NodeDataType, NodeDataTypeWithValue, ValueV};
use vstd::prelude::*;

verus! {

#[derive(Debug)]
pub struct PreviewNode {
    /// The display colour, as red, green and blue channels.
    pub output_color: [u8; 3],
}

impl Default for PreviewNode {
    fn default() -> (r: Self)
        ensures
            r.output_color@ =~= seq![0u8, 0u8, 0u8],
    {
        PreviewNode { output_color: [0, 0, 0] }
    }
}

impl PreviewNode {
    /// A preview node with the given display colour.
    pub fn new(output_color: [u8; 3]) -> (r: Self)
        ensures
            r.output_color@ == output_color@,
    {
        PreviewNode { output_color }
    }

    pub open spec fn spec_process(self, ins: Seq<ValueV>) -> Result<Seq<ValueV>, EvalError> {
        if ins.len() != 1 {
            Err(EvalError::BadArity)
        } else {
            Ok(Seq::empty())
        }
    }

    pub fn get_name(&self) -> &'static str {
        "PreviewNode"
    }

    pub fn get_inputs(&self) -> (r: Vec<(&'static str, NodeDataType)>)
        ensures
            r@.len() == 1,
            r@[0].1 == NodeDataType::DecimalSequence,
    {
        vec![("Input", NodeDataType::DecimalSequence)]
    }

    pub fn get_outputs(&self) -> (r: Vec<(&'static str, NodeDataType)>)
        ensures
            r@.len() == 0,
    {
        Vec::new()
    }

    pub fn process_data(&self, input_args: &Vec<NodeDataTypeWithValue>) -> (r: Result<
        Vec<NodeDataTypeWithValue>,
        EvalError,
    >)
        ensures
            crate::node_trait::result_matches(
                r,
                self.spec_process(crate::node_trait::views_of(input_args@)),
            ),
    {
        if input_args.len() != 1 {
            return Err(EvalError::BadArity);
        }
        let r: Vec<NodeDataTypeWithValue> = Vec::new();
        proof {
            assert(crate::node_trait::views_of(r@) =~= Seq::<ValueV>::empty());
        }
        Ok(r)
    }
}

} // verus!
