//! Interpolators map a normalized parameter onto a two-endpoint range.

use crate::numeric::Numeric;
use core::ops::Range;
use vstd::prelude::*;

pub mod number;

verus! {

/// This is a trait for interpolating over a range object.
pub trait RangeInterpolator<S: Numeric>: Sized {
    /// What `interpolate_range` returns.
    spec fn interpolate_spec(&self, range: Range<S>, n: S) -> S;

    /// A new interpolator.
    fn new() -> Self;

    /// Given a range from a to b, takes a parameter `n` — conventionally in
    /// the unit interval — and returns the corresponding value between a
    /// and b: a at zero and b at one.
    fn interpolate_range(&self, range: &Range<S>, n: S) -> (r: S)
        ensures
            r == self.interpolate_spec(*range, n),
    ;
}

} // verus!
