//! Linear scales map a numeric domain onto a range by plain proportion.

use crate::error::BuckyError;
use crate::interpolate::number::NumberInterpolator;
use crate::interpolate::RangeInterpolator;
use crate::numeric::Numeric;
use core::ops::Range;
use vstd::prelude::*;

verus! {

/// A continuous linear scale: a domain, a range, a clamping flag and the
/// interpolator that blends the range. Configuration calls are pure
/// transformations returning new scale values.
#[derive(Clone, Debug)]
pub struct ScaleLinear<S, InterpolatorType> {
    /// The input domain.
    pub domain: Range<S>,
    /// The output range.
    pub range: Range<S>,
    /// Whether inputs are clamped into the domain before normalizing.
    pub clamped: bool,
    /// How normalized positions blend into the range.
    pub interpolator: InterpolatorType,
}

/// The smaller of two scalars under the scalar's own order.
pub open spec fn min_spec<S: Numeric>(a: S, b: S) -> S {
    if b.lt_spec(a) {
        b
    } else {
        a
    }
}

/// The larger of two scalars under the scalar's own order.
pub open spec fn max_spec<S: Numeric>(a: S, b: S) -> S {
    if a.lt_spec(b) {
        b
    } else {
        a
    }
}

/// What a linear scale returns for input `t`: the input — clamped into the
/// domain when clamping is on — normalized against the domain and blended
/// into the range, with a descending domain handled by swapping both ends.
pub open spec fn linear_scale_spec<S: Numeric, I: RangeInterpolator<S>>(
    sc: ScaleLinear<S, I>,
    t: S,
) -> S {
    let (d, r) = if sc.domain.end.lt_spec(sc.domain.start) {
        (
            Range { start: sc.domain.end, end: sc.domain.start },
            Range { start: sc.range.end, end: sc.range.start },
        )
    } else {
        (sc.domain, sc.range)
    };
    let clamped = if sc.clamped {
        max_spec(d.start, min_spec(d.end, t))
    } else {
        t
    };
    let normalized = clamped.minus_spec(d.start).over_spec(d.end.minus_spec(d.start));
    sc.interpolator.interpolate_spec(r, normalized)
}

impl<S: Numeric, InterpolatorType: RangeInterpolator<S>> ScaleLinear<S, InterpolatorType> {
    /// A copy of this scale with the given domain; a descending domain is
    /// refused.
    pub fn domain(self, domain: Range<S>) -> (r: Result<Self, BuckyError>)
        ensures
            match r {
                Ok(sc) => !domain.end.lt_spec(domain.start) && sc == (Self { domain, ..self }),
                Err(e) => domain.end.lt_spec(domain.start) && e == BuckyError::DescendingScale,
            },
    {
        if domain.end.lt(domain.start) {
            Err(BuckyError::DescendingScale)
        } else {
            Ok(Self { domain, ..self })
        }
    }

    /// A copy of this scale with the given output range.
    pub fn range(self, range: Range<S>) -> (r: Result<Self, BuckyError>)
        ensures
            r == Ok::<Self, BuckyError>(Self { range, ..self }),
    {
        Ok(Self { range, ..self })
    }

    /// A copy of this scale with clamping switched on or off.
    pub fn clamped(self, clamped: bool) -> (r: Self)
        ensures
            r == (Self { clamped, ..self }),
    {
        Self { clamped, ..self }
    }

    /// Maps one domain value into the range.
    pub fn scale(&self, t: S) -> (r: S)
        ensures
            r == linear_scale_spec(*self, t),
    {
        let (d, rg) = if self.domain.end.lt(self.domain.start) {
            (
                Range { start: self.domain.end, end: self.domain.start },
                Range { start: self.range.end, end: self.range.start },
            )
        } else {
            (
                Range { start: self.domain.start, end: self.domain.end },
                Range { start: self.range.start, end: self.range.end },
            )
        };
        let low = if t.lt(d.end) {
            t
        } else {
            d.end
        };
        let clamped = if self.clamped {
            if d.start.lt(low) {
                low
            } else {
                d.start
            }
        } else {
            t
        };
        let normalized = clamped.minus(d.start).over(d.end.minus(d.start));
        self.interpolator.interpolate_range(&rg, normalized)
    }
}

impl<S: Numeric> ScaleLinear<S, NumberInterpolator> {
    /// A new linear scale: unit domain, unit range, no clamping.
    pub fn new() -> (r: Self)
        ensures
            r.domain.start == S::of_int_spec(0),
            r.domain.end == S::of_int_spec(1),
            r.range.start == S::of_int_spec(0),
            r.range.end == S::of_int_spec(1),
            !r.clamped,
            r.interpolator == (NumberInterpolator {  }),
    {
        Self {
            domain: Range { start: S::of_int(0), end: S::of_int(1) },
            range: Range { start: S::of_int(0), end: S::of_int(1) },
            clamped: false,
            interpolator: NumberInterpolator {  },
        }
    }
}

/// With clamping on, any input at or beyond the domain's top maps exactly
/// as the top itself does.
pub proof fn lemma_linear_clamp_top<S: Numeric, I: RangeInterpolator<S>>(
    sc: ScaleLinear<S, I>,
    t: S,
)
    requires
        sc.clamped,
        !sc.domain.end.lt_spec(sc.domain.start),
        !t.lt_spec(sc.domain.end),
    ensures
        linear_scale_spec(sc, t) == linear_scale_spec(sc, sc.domain.end),
{
}

} // verus!
