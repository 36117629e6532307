//! Small shared conveniences.

use std::sync::Arc;
use vstd::prelude::*;

verus! {

/// Wrapping a value for cheap, read-only, reference-counted sharing.
pub trait IntoArc: Sized {
    /// The shared value is the value itself.
    fn into_arc(self) -> (r: Arc<Self>)
        ensures
            r == self,
    ;
}

impl<T> IntoArc for T {
    fn into_arc(self) -> (r: Arc<Self>)
        ensures
            r == self,
    {
        Arc::new(self)
    }
}

} // verus!
