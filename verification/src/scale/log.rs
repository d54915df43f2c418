//! Logarithmic scales apply a log transform to the domain before mapping.
//!
//! As the logarithm of zero diverges, a log scale's domain must be strictly
//! positive or strictly negative: it must not include or cross zero. The
//! domain constructor enforces exactly that; widening a log domain to round
//! boundaries is a deliberate gap and fails loudly.

use crate::error::BuckyError;
use crate::interpolate::number::NumberInterpolator;
use crate::interpolate::RangeInterpolator;
use crate::numeric::Numeric;
use core::ops::Range;
use vstd::prelude::*;

verus! {

/// A continuous logarithmic scale: a domain, a range, a clamping flag, the
/// logarithm base and the interpolator that blends the range.
#[derive(Clone, Debug)]
pub struct ScaleLog<S, InterpolatorType> {
    /// The input domain; strictly one-signed.
    pub domain: Range<S>,
    /// The output range.
    pub range: Range<S>,
    /// Whether inputs are clamped into the domain before normalizing.
    pub clamped: bool,
    /// The logarithm base.
    pub base: S,
    /// How normalized positions blend into the range.
    pub interpolator: InterpolatorType,
}

/// A one-signed pair: both endpoints strictly below zero or both strictly
/// above it. Exactly the domains a log scale accepts.
pub open spec fn one_signed<S: Numeric>(start: S, end: S) -> bool {
    (end.lt_spec(S::of_int_spec(0)) && start.lt_spec(S::of_int_spec(0))) || (S::of_int_spec(
        0,
    ).lt_spec(end) && S::of_int_spec(0).lt_spec(start))
}

impl<S: Numeric, InterpolatorType: RangeInterpolator<S>> ScaleLog<S, InterpolatorType> {
    /// A copy of this scale with another interpolator.
    pub fn interpolator<NewInterpolator: RangeInterpolator<S>>(
        self,
        interpolator: NewInterpolator,
    ) -> (r: ScaleLog<S, NewInterpolator>)
        ensures
            r.domain == self.domain,
            r.range == self.range,
            r.clamped == self.clamped,
            r.base == self.base,
            r.interpolator == interpolator,
    {
        ScaleLog {
            interpolator,
            domain: self.domain,
            range: self.range,
            clamped: self.clamped,
            base: self.base,
        }
    }

    /// A copy of this scale with the given logarithm base.
    pub fn base(self, base: S) -> (r: Self)
        ensures
            r == (Self { base, ..self }),
    {
        Self { base, ..self }
    }

    /// A copy of this scale with the given domain. Succeeds exactly on
    /// one-signed domains — ascending or descending — and fails with
    /// `DegenerateDomain` whenever the domain includes or straddles zero.
    pub fn domain(self, domain: Range<S>) -> (r: Result<Self, BuckyError>)
        ensures
            match r {
                Ok(sc) => one_signed(domain.start, domain.end) && sc == (Self { domain, ..self }),
                Err(e) => !one_signed(domain.start, domain.end) && e
                    == BuckyError::DegenerateDomain,
            },
    {
        let zero = S::of_int(0);
        let neg = domain.end.lt(zero) && domain.start.lt(zero);
        let pos = zero.lt(domain.end) && zero.lt(domain.start);
        if neg || pos {
            Ok(Self { domain, ..self })
        } else {
            Err(BuckyError::DegenerateDomain)
        }
    }

    /// A copy of this scale with the given output range.
    pub fn range(self, range: Range<S>) -> (r: Result<Self, BuckyError>)
        ensures
            r == Ok::<Self, BuckyError>(Self { range, ..self }),
    {
        Ok(Self { range, ..self })
    }

    /// A copy of this scale with clamping switched on or off.
    pub fn clamped(self, clamped: bool) -> (r: Self)
        ensures
            r == (Self { clamped, ..self }),
    {
        Self { clamped, ..self }
    }

    /// Widening a log domain to round boundaries is a deliberate gap: it
    /// always fails loudly rather than silently producing wrong numbers.
    pub fn nice(self, count: Option<i32>) -> (r: Result<Self, BuckyError>)
        ensures
            r == Err::<Self, BuckyError>(BuckyError::Unimplemented),
    {
        Err(BuckyError::Unimplemented)
    }
}

impl<S: Numeric> ScaleLog<S, NumberInterpolator> {
    /// A new log scale: domain from one to ten, unit range, base ten, no
    /// clamping.
    pub fn new() -> (r: Self)
        ensures
            r.domain.start == S::of_int_spec(1),
            r.domain.end == S::of_int_spec(10),
            r.range.start == S::of_int_spec(0),
            r.range.end == S::of_int_spec(1),
            !r.clamped,
            r.base == S::of_int_spec(10),
            r.interpolator == (NumberInterpolator {  }),
    {
        Self {
            domain: Range { start: S::of_int(1), end: S::of_int(10) },
            range: Range { start: S::of_int(0), end: S::of_int(1) },
            clamped: false,
            base: S::of_int(10),
            interpolator: NumberInterpolator {  },
        }
    }
}

} // verus!
