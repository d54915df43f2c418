//! Interpolators for plain numeric ranges.

use crate::interpolate::RangeInterpolator;
use crate::numeric::Numeric;
use core::ops::Range;
use vstd::prelude::*;

verus! {

/// Interpolates between two numbers and rounds the result to the nearest
/// whole value.
#[derive(Clone, Copy, Debug)]
pub struct RoundInterpolator {}

/// The affine blend `start * (1 - n) + end * n` over the scalar's own
/// arithmetic.
pub open spec fn blend_spec<S: Numeric>(range: Range<S>, n: S) -> S {
    range.start.times_spec(S::of_int_spec(1).minus_spec(n)).plus_spec(range.end.times_spec(n))
}

impl<S: Numeric> RangeInterpolator<S> for RoundInterpolator {
    open spec fn interpolate_spec(&self, range: Range<S>, n: S) -> S {
        blend_spec(range, n).rounded_spec()
    }

    fn new() -> Self {
        Self {  }
    }

    fn interpolate_range(&self, range: &Range<S>, n: S) -> (r: S)
        ensures
            r == self.interpolate_spec(*range, n),
    {
        range.start.times(S::of_int(1).minus(n)).plus(range.end.times(n)).rounded()
    }
}

/// Interpolates between two numbers.
#[derive(Clone, Copy, Debug)]
pub struct NumberInterpolator {}

impl<S: Numeric> RangeInterpolator<S> for NumberInterpolator {
    open spec fn interpolate_spec(&self, range: Range<S>, n: S) -> S {
        blend_spec(range, n)
    }

    fn new() -> Self {
        Self {  }
    }

    fn interpolate_range(&self, range: &Range<S>, n: S) -> (r: S)
        ensures
            r == self.interpolate_spec(*range, n),
    {
        range.start.times(S::of_int(1).minus(n)).plus(range.end.times(n))
    }
}

} // verus!
