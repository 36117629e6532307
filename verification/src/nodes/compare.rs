//! Element-wise comparison of two decimal sequences, producing a mask.

use crate::node_trait::{EvalError, NodeDataType, NodeDataTypeWithValue, ValueV};
use vstd::prelude::*;

verus! {

/// Which comparison the node applies at every position.
#[derive(Clone, Copy, PartialEq, Eq, Structural, Debug)]
pub enum CompareMode {
    BiggerThan,
    LessThan,
    Equal,
    NotEqual,
}

impl Default for CompareMode {
    fn default() -> (r: Self)
        ensures
            r == CompareMode::Equal,
    {
        CompareMode::Equal
    }
}

/// One comparison, applied at a single position.
pub open spec fn spec_compare_one(mode: CompareMode, a: i64, b: i64) -> bool {
    match mode {
        CompareMode::BiggerThan => a > b,
        CompareMode::LessThan => a < b,
        CompareMode::Equal => a == b,
        CompareMode::NotEqual => a != b,
    }
}

#[derive(Debug)]
pub struct CompareNode {
    pub mode: CompareMode,
}

impl Default for CompareNode {
    fn default() -> (r: Self)
        ensures
            r.mode == CompareMode::Equal,
    {
        CompareNode { mode: CompareMode::Equal }
    }
}

impl CompareNode {
    pub open spec fn spec_process(self, ins: Seq<ValueV>) -> Result<Seq<ValueV>, EvalError> {
        if ins.len() != 2 {
            Err(EvalError::BadArity)
        } else {
            match (ins[0], ins[1]) {
                (ValueV::DecimalSequence(a), ValueV::DecimalSequence(b)) => {
                    if a.len() != b.len() {
                        Err(EvalError::LengthMismatch)
                    } else {
                        Ok(
                            seq![
                                ValueV::Mask(
                                    Seq::new(a.len(), |i: int| spec_compare_one(self.mode, a[i], b[i])),
                                )
                            ],
                        )
                    }
                },
                _ => Err(EvalError::BadKind),
            }
        }
    }

    pub fn get_name(&self) -> &'static str {
        "Compare"
    }

    pub fn get_inputs(&self) -> (r: Vec<(&'static str, NodeDataType)>)
        ensures
            r@.len() == 2,
            r@[0].1 == NodeDataType::DecimalSequence,
            r@[1].1 == NodeDataType::DecimalSequence,
    {
        vec![
            ("Seq 1", NodeDataType::DecimalSequence),
            ("Seq 2", NodeDataType::DecimalSequence),
        ]
    }

    pub fn get_outputs(&self) -> (r: Vec<(&'static str, NodeDataType)>)
        ensures
            r@.len() == 1,
            r@[0].1 == NodeDataType::Mask,
    {
        vec![("Mask", NodeDataType::Mask)]
    }

    pub fn process_data(&self, input_args: &Vec<NodeDataTypeWithValue>) -> (r: Result<
        Vec<NodeDataTypeWithValue>,
        EvalError,
    >)
        ensures
            crate::node_trait::result_matches(
                r,
                self.spec_process(crate::node_trait::views_of(input_args@)),
            ),
    {
        if input_args.len() != 2 {
            return Err(EvalError::BadArity);
        }
        match (&input_args[0], &input_args[1]) {
            (
                NodeDataTypeWithValue::DecimalSequence(a),
                NodeDataTypeWithValue::DecimalSequence(b),
            ) => {
                if a.len() != b.len() {
                    return Err(EvalError::LengthMismatch);
                }
                let mut mask: Vec<bool> = Vec::new();
                let mut i: usize = 0;
                while i < a.len()
                    invariant
                        i <= a@.len(),
                        b@.len() == a@.len(),
                        mask@.len() == i,
                        forall|k: int|
                            0 <= k < i ==> mask@[k] == spec_compare_one(self.mode, a@[k], b@[k]),
                    decreases a@.len() - i,
                {
                    let bit = match self.mode {
                        CompareMode::BiggerThan => a[i] > b[i],
                        CompareMode::LessThan => a[i] < b[i],
                        CompareMode::Equal => a[i] == b[i],
                        CompareMode::NotEqual => a[i] != b[i],
                    };
                    mask.push(bit);
                    i += 1;
                }
                let r = vec![NodeDataTypeWithValue::Mask(mask)];
                proof {
                    assert(crate::node_trait::views_of(r@) =~= seq![r@[0]@]);
                    assert(r@[0]@->Mask_0 =~= Seq::new(
                        a@.len(),
                        |k: int| spec_compare_one(self.mode, a@[k], b@[k]),
                    ));
                }
                Ok(r)
            },
            _ => Err(EvalError::BadKind),
        }
    }
}

} // verus!
