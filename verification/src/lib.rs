//! A dataflow execution engine for graphs of typed computation nodes.
//!
//! A graph holds nodes with typed input and output slots, connected by
//! directed edges. The engine decides which nodes are ready to run, runs
//! them with the values cached for their upstream nodes, memoizes the
//! results in a compute cache, and converges to a fixed point. Edits to
//! the graph (connecting, disconnecting, removing or reconfiguring nodes)
//! trigger invalidation and a new scheduler pass.

#![verifier::loop_isolation(false)]

pub mod candles;
pub mod graph;
pub mod node_editor;
pub mod node_trait;
pub mod nodes;
pub mod reach;
pub mod realtime;
pub mod traits;

use vstd::prelude::*;

verus! {

/// A decimal amount, held in fixed-point form: the concrete scale is the
/// caller's business; the engine only moves these values around.
pub type Decimal = i64;

} // verus!
