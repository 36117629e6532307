//! Turns a boolean mask into a directional signal sequence.

use crate::node_trait::{EvalError, NodeDataType, NodeDataTypeWithValue, ValueV};
use vstd::prelude::*;

verus! {

/// The direction a set mask bit stands for.
#[derive(Clone, Copy, PartialEq, Eq, Structural, Debug)]
pub enum ToSignalMode {
    Buy,
    Sell,
}

impl Default for ToSignalMode {
    fn default() -> (r: Self)
        ensures
            r == ToSignalMode::Buy,
    {
        ToSignalMode::Buy
    }
}

/// The signal emitted for one mask bit: 1 or -1 where the bit is set
/// (depending on the configured direction), 0 where it is clear.
pub open spec fn spec_signal_one(mode: ToSignalMode, m: bool) -> i8 {
    if m {
        match mode {
            ToSignalMode::Buy => 1i8,
            ToSignalMode::Sell => -1i8,
        }
    } else {
        0i8
    }
}

#[derive(Debug)]
pub struct ToSignalNode {
    pub mode: ToSignalMode,
}

impl Default for ToSignalNode {
    fn default() -> (r: Self)
        ensures
            r.mode == ToSignalMode::Buy,
    {
        ToSignalNode { mode: ToSignalMode::Buy }
    }
}

impl ToSignalNode {
    pub open spec fn spec_process(self, ins: Seq<ValueV>) -> Result<Seq<ValueV>, EvalError> {
        if ins.len() != 1 {
            Err(EvalError::BadArity)
        } else {
            match ins[0] {
                ValueV::Mask(m) => Ok(
                    seq![ValueV::Signal(Seq::new(m.len(), |i: int| spec_signal_one(self.mode, m[i])))],
                ),
                _ => Err(EvalError::BadKind),
            }
        }
    }

    pub fn get_name(&self) -> &'static str {
        "ToSignalNode"
    }

    pub fn get_inputs(&self) -> (r: Vec<(&'static str, NodeDataType)>)
        ensures
            r@.len() == 1,
            r@[0].1 == NodeDataType::Mask,
    {
        vec![("Mask", NodeDataType::Mask)]
    }

    pub fn get_outputs(&self) -> (r: Vec<(&'static str, NodeDataType)>)
        ensures
            r@.len() == 1,
            r@[0].1 == NodeDataType::Signal,
    {
        vec![("Signal", NodeDataType::Signal)]
    }

    pub fn process_data(&self, input_args: &Vec<NodeDataTypeWithValue>) -> (r: Result<
        Vec<NodeDataTypeWithValue>,
        EvalError,
    >)
        ensures
            crate::node_trait::result_matches(
                r,
                self.spec_process(crate::node_trait::views_of(input_args@)),
            ),
    {
        if input_args.len() != 1 {
            return Err(EvalError::BadArity);
        }
        match &input_args[0] {
            NodeDataTypeWithValue::Mask(m) => {
                let mut sig: Vec<i8> = Vec::new();
                let mut i: usize = 0;
                while i < m.len()
                    invariant
                        i <= m@.len(),
                        sig@.len() == i,
                        forall|k: int| 0 <= k < i ==> sig@[k] == spec_signal_one(self.mode, m@[k]),
                    decreases m@.len() - i,
                {
                    let s: i8 = if m[i] {
                        match self.mode {
                            ToSignalMode::Buy => 1,
                            ToSignalMode::Sell => -1,
                        }
                    } else {
                        0
                    };
                    sig.push(s);
                    i += 1;
                }
                let r = vec![NodeDataTypeWithValue::Signal(sig)];
                proof {
                    assert(crate::node_trait::views_of(r@) =~= seq![r@[0]@]);
                    assert(r@[0]@->Signal_0 =~= Seq::new(
                        m@.len(),
                        |k: int| spec_signal_one(self.mode, m@[k]),
                    ));
                }
                Ok(r)
            },
            _ => Err(EvalError::BadKind),
        }
    }
}

} // verus!
