//! A source node that emits a configured frame of market candles.
//!
//! Where the candles come from (a feed, a file, a generator) is the
//! caller's business: the node is configured with the frame and emits it
//! unchanged on every evaluation, so memoization stays valid.

use crate::candles::Frame;
use crate::node_trait::{EvalError, NodeDataType, NodeDataTypeWithValue, ValueV};
use vstd::prelude::*;

verus! {

#[derive(Debug)]
pub struct MarketDataNode {
    pub candles: Frame,
}

impl Default for MarketDataNode {
    fn default() -> (r: Self)
        ensures
            r.candles@.opens.len() == 0,
            r.candles@.wf(),
    {
        MarketDataNode { candles: Frame::default() }
    }
}

impl MarketDataNode {
    /// A market-data node over the given candles.
    pub fn new(candles: Frame) -> (r: Self)
        ensures
            r.candles@ == candles@,
    {
        MarketDataNode { candles }
    }

    pub open spec fn spec_process(self, ins: Seq<ValueV>) -> Result<Seq<ValueV>, EvalError> {
        if ins.len() != 0 {
            Err(EvalError::BadArity)
        } else {
            Ok(seq![ValueV::Candles(self.candles@)])
        }
    }

    pub fn get_name(&self) -> &'static str {
        "MarketDataNode"
    }

    pub fn get_inputs(&self) -> (r: Vec<(&'static str, NodeDataType)>)
        ensures
            r@.len() == 0,
    {
        Vec::new()
    }

    pub fn get_outputs(&self) -> (r: Vec<(&'static str, NodeDataType)>)
        ensures
            r@.len() == 1,
            r@[0].1 == NodeDataType::Candles,
    {
        vec![("Candles", NodeDataType::Candles)]
    }

    pub fn process_data(&self, input_args: &Vec<NodeDataTypeWithValue>) -> (r: Result<
        Vec<NodeDataTypeWithValue>,
        EvalError,
    >)
        ensures
            crate::node_trait::result_matches(
                r,
                self.spec_process(crate::node_trait::views_of(input_args@)),
            ),
    {
        if input_args.len() != 0 {
            return Err(EvalError::BadArity);
        }
        let r = vec![NodeDataTypeWithValue::Candles(self.candles.clone_frame())];
        proof {
            assert(crate::node_trait::views_of(r@) =~= seq![r@[0]@]);
        }
        Ok(r)
    }
}

} // verus!
