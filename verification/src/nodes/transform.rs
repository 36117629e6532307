//! A transform node that doubles every element of a decimal sequence.

use crate::node_trait::{EvalError, NodeDataType, NodeDataTypeWithValue, ValueV};
use vstd::prelude::*;

verus! {

/// Whether doubling some element of the sequence would leave the value
/// range.
pub open spec fn spec_doubling_overflows(a: Seq<i64>) -> bool {
    exists|i: int|
        0 <= i < a.len() && !(i64::MIN <= 2 * (#[trigger] a[i] as int) <= i64::MAX)
}

#[derive(Debug)]
pub struct TransformNode;

impl Default for TransformNode {
    fn default() -> (r: Self)
        ensures
            r == (TransformNode {}),
    {
        TransformNode {}
    }
}

impl TransformNode {
    pub open spec fn spec_process(self, ins: Seq<ValueV>) -> Result<Seq<ValueV>, EvalError> {
        if ins.len() != 1 {
            Err(EvalError::BadArity)
        } else {
            match ins[0] {
                ValueV::DecimalSequence(a) => {
                    if spec_doubling_overflows(a) {
                        Err(EvalError::Overflow)
                    } else {
                        Ok(
                            seq![
                                ValueV::DecimalSequence(
                                    Seq::new(a.len(), |i: int| (2 * (a[i] as int)) as i64),
                                )
                            ],
                        )
                    }
                },
                _ => Err(EvalError::BadKind),
            }
        }
    }

    pub fn get_name(&self) -> &'static str {
        "TransformNode"
    }

    pub fn get_inputs(&self) -> (r: Vec<(&'static str, NodeDataType)>)
        ensures
            r@.len() == 1,
            r@[0].1 == NodeDataType::DecimalSequence,
    {
        vec![("Input", NodeDataType::DecimalSequence)]
    }

    pub fn get_outputs(&self) -> (r: Vec<(&'static str, NodeDataType)>)
        ensures
            r@.len() == 1,
            r@[0].1 == NodeDataType::DecimalSequence,
    {
        vec![("Doubled", NodeDataType::DecimalSequence)]
    }

    pub fn process_data(&self, input_args: &Vec<NodeDataTypeWithValue>) -> (r: Result<
        Vec<NodeDataTypeWithValue>,
        EvalError,
    >)
        ensures
            crate::node_trait::result_matches(
                r,
                self.spec_process(crate::node_trait::views_of(input_args@)),
            ),
    {
        if input_args.len() != 1 {
            return Err(EvalError::BadArity);
        }
        match &input_args[0] {
            NodeDataTypeWithValue::DecimalSequence(a) => {
                let mut out: Vec<i64> = Vec::new();
                let mut i: usize = 0;
                while i < a.len()
                    invariant
                        i <= a@.len(),
                        out@.len() == i,
                        forall|k: int| 0 <= k < i ==> !(i64::MIN > 2 * (a@[k] as int)) && !(2 * (
                        a@[k] as int) > i64::MAX),
                        forall|k: int| 0 <= k < i ==> out@[k] == (2 * (a@[k] as int)) as i64,
                    decreases a@.len() - i,
                {
                    let x = a[i];
                    if x > i64::MAX / 2 || x < i64::MIN / 2 {
                        proof {
                            let ii = i as int;
                            assert(!(i64::MIN <= 2 * (a@[ii] as int) <= i64::MAX));
                            assert(spec_doubling_overflows(a@));
                        }
                        return Err(EvalError::Overflow);
                    }
                    out.push(2 * x);
                    i += 1;
                }
                assert(!spec_doubling_overflows(a@));
                let r = vec![NodeDataTypeWithValue::DecimalSequence(out)];
                proof {
                    assert(crate::node_trait::views_of(r@) =~= seq![r@[0]@]);
                    assert(r@[0]@->DecimalSequence_0 =~= Seq::new(
                        a@.len(),
                        |k: int| (2 * (a@[k] as int)) as i64,
                    ));
                }
                Ok(r)
            },
            _ => Err(EvalError::BadKind),
        }
    }
}

} // verus!
