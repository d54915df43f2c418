//! Array helpers: extents, thresholds and tick generation.

pub mod extent;
pub mod threshold;
pub mod ticks;
