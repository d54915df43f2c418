//! Band scales divide a continuous range into uniform bands.
//!
//! Band scales are like ordinal scales except the output range is
//! continuous and numeric: discrete output values are computed by dividing
//! the continuous range into one uniform band per domain category,
//! typically for bar charts.

use crate::numeric::Numeric;
use crate::scale::ordinal::find_eq;
use core::ops::Range;
use vstd::prelude::*;
use vstd::std_specs::cmp::PartialEqSpec;

verus! {

/// A band scale: categories, a numeric range, paddings and the positions
/// computed from them. Configuration calls are pure transformations that
/// recompute the derived fields.
#[derive(Clone, Debug)]
pub struct ScaleBand<'a, DomainType, S> {
    /// The input categories, in order.
    pub domain: &'a [DomainType],
    /// The continuous output range.
    pub range: Range<S>,
    /// The share of each step kept blank between bands.
    pub padding_inner: S,
    /// Blank space before the first and after the last band, in steps.
    pub padding_outer: S,
    /// How leftover space distributes; one half centers the bands.
    pub align: S,
    /// The start position of each band.
    pub values: Vec<S>,
    /// The width of one band.
    pub band_width: S,
    /// The distance between the starts of adjacent bands.
    pub step: S,
}

/// The distance between band starts: the range's span divided by the
/// number of bands less the inner padding plus twice the outer padding, but
/// never by less than one.
pub open spec fn band_step_spec<S: Numeric>(n: int, range: Range<S>, pi: S, po: S) -> S {
    let denom = S::of_int_spec(n as i64).minus_spec(pi).plus_spec(
        po.times_spec(S::of_int_spec(2)),
    );
    let denom1 = if denom.lt_spec(S::of_int_spec(1)) {
        S::of_int_spec(1)
    } else {
        denom
    };
    range.end.minus_spec(range.start).over_spec(denom1)
}

/// Where the first band starts: the range's start plus the aligned share
/// of the space the bands do not fill.
pub open spec fn band_start_spec<S: Numeric>(n: int, range: Range<S>, pi: S, po: S, align: S) -> S {
    let step = band_step_spec(n, range, pi, po);
    range.start.plus_spec(
        range.end.minus_spec(range.start).minus_spec(
            step.times_spec(S::of_int_spec(n as i64).minus_spec(pi)),
        ).times_spec(align),
    )
}

/// The width of one band: the step less its inner-padding share.
pub open spec fn band_width_spec<S: Numeric>(n: int, range: Range<S>, pi: S, po: S) -> S {
    band_step_spec(n, range, pi, po).times_spec(S::of_int_spec(1).minus_spec(pi))
}

/// The derived fields follow the configuration: this predicate is what
/// every configuration call re-establishes.
pub open spec fn band_wf<S: Numeric, D>(sc: ScaleBand<D, S>) -> bool {
    let n = sc.domain@.len() as int;
    &&& sc.step == band_step_spec(n, sc.range, sc.padding_inner, sc.padding_outer)
    &&& sc.band_width == band_width_spec(n, sc.range, sc.padding_inner, sc.padding_outer)
    &&& sc.values@.len() == n
    &&& forall|i: int|
        0 <= i < n ==> sc.values@[i] == band_start_spec(
            n,
            sc.range,
            sc.padding_inner,
            sc.padding_outer,
            sc.align,
        ).plus_spec(
            #[trigger] sc.step.times_spec(S::of_int_spec(i as i64)),
        )
}

/// The step and width always round-trip: the band width is exactly the
/// step scaled by one minus the inner padding, for every domain size,
/// range and padding.
pub proof fn lemma_band_round_trip<S: Numeric>(n: int, range: Range<S>, pi: S, po: S)
    ensures
        band_width_spec(n, range, pi, po) == band_step_spec(n, range, pi, po).times_spec(
            S::of_int_spec(1).minus_spec(pi),
        ),
{
}

impl<'a, DomainType, S> ScaleBand<'a, DomainType, S> where DomainType: PartialEq + Copy, S: Numeric {
    /// A new band scale: empty domain, unit range, no padding, centered.
    pub fn new() -> (r: Self)
        ensures
            r.domain@.len() == 0,
            r.range.start == S::of_int_spec(0),
            r.range.end == S::of_int_spec(1),
            r.padding_inner == S::of_int_spec(0),
            r.padding_outer == S::of_int_spec(0),
            r.align == S::of_int_spec(1).over_spec(S::of_int_spec(2)),
            band_wf(r),
    {
        let base = Self {
            domain: &[],
            range: Range { start: S::of_int(0), end: S::of_int(1) },
            padding_inner: S::of_int(0),
            padding_outer: S::of_int(0),
            align: S::of_int(1).over(S::of_int(2)),
            values: Vec::new(),
            band_width: S::of_int(0),
            step: S::of_int(0),
        };
        base.recalc()
    }

    /// A copy of this scale with the given domain, its bands recomputed.
    pub fn domain(self, domain: &'a [DomainType]) -> (r: Self)
        requires
            domain.len() <= 0x7fff_ffff,
        ensures
            r == (Self { domain, values: r.values, band_width: r.band_width, step: r.step, ..self }),
            band_wf(r),
    {
        (Self { domain, ..self }).recalc()
    }

    /// A copy of this scale with the given range, its bands recomputed.
    pub fn range(self, range: Range<S>) -> (r: Self)
        requires
            self.domain.len() <= 0x7fff_ffff,
        ensures
            r == (Self { range, values: r.values, band_width: r.band_width, step: r.step, ..self }),
            band_wf(r),
    {
        (Self { range, ..self }).recalc()
    }

    /// A copy of this scale with inner and outer padding both set to the
    /// given value — the inner padding capped at one — and its bands
    /// recomputed.
    pub fn padding(self, padding: S) -> (r: Self)
        requires
            self.domain.len() <= 0x7fff_ffff,
        ensures
            r.padding_inner == if padding.lt_spec(S::of_int_spec(1)) {
                padding
            } else {
                S::of_int_spec(1)
            },
            r.padding_outer == padding,
            r.domain == self.domain && r.range == self.range && r.align == self.align,
            band_wf(r),
    {
        let padding_inner = if padding.lt(S::of_int(1)) {
            padding
        } else {
            S::of_int(1)
        };
        (Self { padding_inner, padding_outer: padding, ..self }).recalc()
    }

    /// A copy of this scale with the given inner padding, capped at one,
    /// and its bands recomputed.
    pub fn padding_inner(self, padding: S) -> (r: Self)
        requires
            self.domain.len() <= 0x7fff_ffff,
        ensures
            r.padding_inner == if padding.lt_spec(S::of_int_spec(1)) {
                padding
            } else {
                S::of_int_spec(1)
            },
            r.padding_outer == self.padding_outer,
            r.domain == self.domain && r.range == self.range && r.align == self.align,
            band_wf(r),
    {
        let padding_inner = if padding.lt(S::of_int(1)) {
            padding
        } else {
            S::of_int(1)
        };
        (Self { padding_inner, ..self }).recalc()
    }

    /// A copy of this scale with the given outer padding and its bands
    /// recomputed.
    pub fn padding_outer(self, padding: S) -> (r: Self)
        requires
            self.domain.len() <= 0x7fff_ffff,
        ensures
            r.padding_outer == padding,
            r.padding_inner == self.padding_inner,
            r.domain == self.domain && r.range == self.range && r.align == self.align,
            band_wf(r),
    {
        (Self { padding_outer: padding, ..self }).recalc()
    }

    /// Recomputes the step, band width and band positions.
    fn recalc(self) -> (r: Self)
        requires
            self.domain.len() <= 0x7fff_ffff,
        ensures
            r == (Self { values: r.values, band_width: r.band_width, step: r.step, ..self }),
            band_wf(r),
    {
        let n = self.domain.len();
        let n_s: S = S::of_int(n as i64);
        let denom = n_s.minus(self.padding_inner).plus(self.padding_outer.times(S::of_int(2)));
        let denom1 = if denom.lt(S::of_int(1)) {
            S::of_int(1)
        } else {
            denom
        };
        let step = self.range.end.minus(self.range.start).over(denom1);
        let start = self.range.start.plus(
            self.range.end.minus(self.range.start).minus(
                step.times(n_s.minus(self.padding_inner)),
            ).times(self.align),
        );
        let band_width = step.times(S::of_int(1).minus(self.padding_inner));
        let mut values: Vec<S> = Vec::new();
        let mut i: usize = 0;
        while i < n
            invariant
                0 <= i <= n,
                n <= 0x7fff_ffff,
                values@.len() == i,
                step == band_step_spec(n as int, self.range, self.padding_inner,
                    self.padding_outer),
                start == band_start_spec(n as int, self.range, self.padding_inner,
                    self.padding_outer, self.align),
                forall|q: int|
                    0 <= q < i ==> values@[q] == start.plus_spec(
                        #[trigger] step.times_spec(S::of_int_spec(q as i64)),
                    ),
            decreases n - i,
        {
            values.push(start.plus(step.times(S::of_int(i as i64))));
            i = i + 1;
        }
        Self { values, band_width, step, ..self }
    }

    /// The band start of a domain value: the position at the first matching
    /// category, wrapping around the position list.
    pub fn scale(&self, value: DomainType) -> (r: S)
        requires
            DomainType::obeys_eq_spec(),
            find_eq(self.domain@, value, 0) >= 0,
            self.values@.len() > 0,
        ensures
            r == self.values@[find_eq(self.domain@, value, 0) % self.values@.len() as int],
    {
        let mut i: usize = 0;
        while i < self.domain.len()
            invariant
                0 <= i <= self.domain@.len(),
                DomainType::obeys_eq_spec(),
                find_eq(self.domain@, value, 0) >= 0,
                self.values@.len() > 0,
                find_eq(self.domain@, value, 0) == find_eq(self.domain@, value, i as int),
                forall|q: int| 0 <= q < i ==> !(#[trigger] self.domain@[q]).eq_spec(&value),
            decreases self.domain@.len() - i,
        {
            if self.domain[i] == value {
                return self.values[i % self.values.len()];
            }
            i = i + 1;
        }
        proof {
            assert(find_eq(self.domain@, value, self.domain@.len() as int) == -1);
        }
        self.values[0]
    }
}

} // verus!
