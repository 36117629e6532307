//! The fixed set of node types the engine dispatches over.

pub mod compare;
pub mod execute_position;
pub mod fuse_signals;
pub mod market_data;
pub mod preview;
pub mod sma;
pub mod source;
pub mod split_candles;
pub mod to_signal;
pub mod transform;
