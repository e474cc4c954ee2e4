//! Converts rows of a vendor's tabular market-data export into normalized,
//! precision-exact domain events: order-book deltas, fixed-depth snapshots,
//! top-of-book quotes and trades.

pub mod decimal;
pub mod delta;
pub mod depth;
pub mod digits;
pub mod errors;
pub mod fields;
pub mod model;
pub mod rows;
pub mod source;
pub mod tick;
