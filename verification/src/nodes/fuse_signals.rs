//! Merges two signal sequences, preferring the first non-hold signal.

use crate::node_trait::{EvalError, NodeDataType, NodeDataTypeWithValue, ValueV};
use vstd::prelude::*;

verus! {

/// The fused signal at one position: the first signal where it is not a
/// hold, otherwise the second.
pub open spec fn spec_fuse_one(a: i8, b: i8) -> i8 {
    if a == 0 {
        b
    } else {
        a
    }
}

/// The length of the fused sequence: the two inputs are walked in step and
/// the longer one's tail is dropped.
pub open spec fn spec_fused_len(a: Seq<i8>, b: Seq<i8>) -> int {
    if a.len() <= b.len() {
        a.len() as int
    } else {
        b.len() as int
    }
}

#[derive(Debug)]
pub struct FuseSignalsNode {}

impl Default for FuseSignalsNode {
    fn default() -> (r: Self)
        ensures
            r == (FuseSignalsNode {}),
    {
        FuseSignalsNode {}
    }
}

impl FuseSignalsNode {
    pub open spec fn spec_process(self, ins: Seq<ValueV>) -> Result<Seq<ValueV>, EvalError> {
        if ins.len() != 2 {
            Err(EvalError::BadArity)
        } else {
            match (ins[0], ins[1]) {
                (ValueV::Signal(a), ValueV::Signal(b)) => Ok(
                    seq![
                        ValueV::Signal(
                            Seq::new(spec_fused_len(a, b) as nat, |i: int| spec_fuse_one(a[i], b[i])),
                        )
                    ],
                ),
                _ => Err(EvalError::BadKind),
            }
        }
    }

    pub fn get_name(&self) -> &'static str {
        "FuseSignalsNode"
    }

    pub fn get_inputs(&self) -> (r: Vec<(&'static str, NodeDataType)>)
        ensures
            r@.len() == 2,
            r@[0].1 == NodeDataType::Signal,
            r@[1].1 == NodeDataType::Signal,
    {
        vec![("Signal 1", NodeDataType::Signal), ("Signal 2", NodeDataType::Signal)]
    }

    pub fn get_outputs(&self) -> (r: Vec<(&'static str, NodeDataType)>)
        ensures
            r@.len() == 1,
            r@[0].1 == NodeDataType::Signal,
    {
        vec![("Fused Signal", NodeDataType::Signal)]
    }

    pub fn process_data(&self, input_args: &Vec<NodeDataTypeWithValue>) -> (r: Result<
        Vec<NodeDataTypeWithValue>,
        EvalError,
    >)
        ensures
            crate::node_trait::result_matches(
                r,
                self.spec_process(crate::node_trait::views_of(input_args@)),
            ),
    {
        if input_args.len() != 2 {
            return Err(EvalError::BadArity);
        }
        match (&input_args[0], &input_args[1]) {
            (NodeDataTypeWithValue::Signal(a), NodeDataTypeWithValue::Signal(b)) => {
                let n = if a.len() <= b.len() {
                    a.len()
                } else {
                    b.len()
                };
                let mut fused: Vec<i8> = Vec::new();
                let mut i: usize = 0;
                while i < n
                    invariant
                        i <= n,
                        n == spec_fused_len(a@, b@),
                        fused@.len() == i,
                        forall|k: int| 0 <= k < i ==> fused@[k] == spec_fuse_one(a@[k], b@[k]),
                    decreases n - i,
                {
                    let s = if a[i] == 0 {
                        b[i]
                    } else {
                        a[i]
                    };
                    fused.push(s);
                    i += 1;
                }
                let r = vec![NodeDataTypeWithValue::Signal(fused)];
                proof {
                    assert(crate::node_trait::views_of(r@) =~= seq![r@[0]@]);
                    assert(r@[0]@->Signal_0 =~= Seq::new(
                        spec_fused_len(a@, b@) as nat,
                        |k: int| spec_fuse_one(a@[k], b@[k]),
                    ));
                }
                Ok(r)
            },
            _ => Err(EvalError::BadKind),
        }
    }
}

} // verus!
