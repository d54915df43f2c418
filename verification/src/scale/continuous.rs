//! The shared shape of continuous scales.

use crate::error::BuckyError;
use core::ops::Range;
use vstd::prelude::*;

verus! {

/// Continuous scales map a continuous, quantitative input domain to a
/// continuous output range. Every configuration call is a pure
/// transformation returning a new scale value; nothing is mutated in
/// place.
pub trait ScaleContinuous<DomainType, RangeType>: Sized {
    /// When `nice` may be asked of this scale.
    spec fn can_nice(&self, count: Option<i32>) -> bool;

    /// When `scale` may be asked for this input.
    spec fn can_scale(&self, t: DomainType) -> bool;

    /// When `ticks` may be asked of this scale.
    spec fn can_ticks(&self, count: Option<i32>) -> bool;

    /// A copy of this scale with the given domain, when the domain is
    /// acceptable to the scale kind.
    fn domain(self, domain: Range<DomainType>) -> Result<Self, BuckyError>;

    /// A copy of this scale with the given output range.
    fn range(self, range: Range<RangeType>) -> Result<Self, BuckyError>;

    /// A copy of this scale with input clamping switched on or off.
    fn clamped(self, clamped: bool) -> Self;

    /// A copy of this scale with the domain widened outward to round
    /// boundaries, aiming at about `count` ticks (ten when unspecified).
    fn nice(self, count: Option<i32>) -> Result<Self, BuckyError>
        requires
            self.can_nice(count),
    ;

    /// Maps one domain value into the range.
    fn scale(&self, t: DomainType) -> RangeType
        requires
            self.can_scale(t),
    ;

    /// The tick positions for about `count` ticks (ten when unspecified).
    fn ticks(&self, count: Option<i32>) -> Vec<DomainType>
        requires
            self.can_ticks(count),
    ;
}

} // verus!
