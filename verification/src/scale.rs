//! Scales map an input domain onto an output range.

pub mod band;
pub mod continuous;
pub mod linear;
pub mod log;
pub mod ordinal;
pub mod time;
