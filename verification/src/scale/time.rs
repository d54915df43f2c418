//! Time scales map a calendar time domain onto a numeric range.

use crate::array::ticks::time::{increment_spec, incr_sane, lemma_increment_cases};
use crate::array::ticks::time_duration::{epoch, rem_of, rem_of_int, TickDuration};
use crate::array::ticks::time_duration::{lemma_rem_neg, lemma_rem_nonneg};
use crate::array::ticks::TickIncrement;
use crate::datetime::{DateTime, MAX_YEAR};
use crate::datetime::{lemma_dby_bounds, lemma_dby_monotone, lemma_rd_below_max};
use crate::error::BuckyError;
use crate::interpolate::number::NumberInterpolator;
use crate::interpolate::RangeInterpolator;
use crate::numeric::Numeric;
use crate::scale::continuous::ScaleContinuous;
use core::ops::Range;
use vstd::prelude::*;

verus! {

/// A continuous scale over calendar time: a civil date-time domain, a
/// numeric range, a clamping flag and the interpolator that blends the
/// range.
#[derive(Clone, Debug)]
pub struct ScaleTime<S, InterpolatorType> {
    /// The input domain, ascending.
    pub domain: Range<DateTime>,
    /// The output range.
    pub range: Range<S>,
    /// Whether inputs are clamped into the domain before normalizing.
    pub clamped: bool,
    /// How normalized positions blend into the range.
    pub interpolator: InterpolatorType,
}

/// The tick count actually used: ten when none is given.
pub open spec fn count_or_ten(count: Option<i32>) -> int {
    match count {
        Some(c) => c as int,
        None => 10,
    }
}

/// The increment a time scale picks for this domain and count.
pub open spec fn scale_increment(dom: Range<DateTime>, count: Option<i32>) -> TickDuration {
    increment_spec(dom.start, dom.end, count_or_ten(count))
}

/// What flooring by an increment leaves behind — exactly the promise the
/// flooring operation makes, usable to describe a widened domain.
pub open spec fn floor_shape(d: TickDuration, dt: DateTime, f: DateTime) -> bool {
    match d {
        TickDuration::Milliseconds(m) => f.nanosecond == 0 && f.rd_seconds() == (dt.rd_nanos()
            - rem_of_int(TickDuration::unix_millis(dt), m) * 1_000_000) / 1_000_000_000,
        _ => f == d.floor_spec(dt),
    }
}

/// What ceiling by an increment produces: an on-grid instant unchanged,
/// any other moved one interval up from its floor.
pub open spec fn ceil_shape(d: TickDuration, dt: DateTime, c: DateTime) -> bool {
    if d.on_grid(dt) {
        c == dt
    } else {
        match d {
        TickDuration::Milliseconds(m) => c.rd_nanos() == d.millis_floor_seconds(dt)
            * 1_000_000_000 + m * 1_000_000,
        TickDuration::Seconds(s) => c.rd_seconds() == d.floor_spec(dt).rd_seconds() + s
            && c.nanosecond == 0,
        TickDuration::Minutes(m) => c.rd_seconds() == d.floor_spec(dt).rd_seconds() + (m as int)
            * 60 && c.nanosecond == 0,
        TickDuration::Hours(h) => c.rd_seconds() == d.floor_spec(dt).rd_seconds() + (h as int)
            * 3600 && c.nanosecond == 0,
        TickDuration::Days(k) => c.rata_die() == d.floor_spec(dt).rata_die() + k && c.hour == 0
            && c.minute == 0 && c.second == 0 && c.nanosecond == 0,
        TickDuration::Weeks(_) => false,
        TickDuration::Months(m) => c == d.floor_spec(dt).add_months_spec(m as int),
        TickDuration::Years(y) => c == d.floor_spec(dt).add_years_spec(y as int),
        }
    }
}

/// How one tick leads to the next: the exact move each increment makes.
pub open spec fn tick_step_shape(d: TickDuration, cur: DateTime, r: DateTime) -> bool {
    match d {
        TickDuration::Milliseconds(m) => r.rd_nanos() == cur.rd_nanos() + m * 1_000_000,
        TickDuration::Seconds(s) => r.rd_seconds() == cur.rd_seconds() + s && r.nanosecond
            == cur.nanosecond,
        TickDuration::Minutes(m) => r.rd_seconds() == cur.rd_seconds() + (m as int) * 60
            && r.nanosecond == cur.nanosecond,
        TickDuration::Hours(h) => r.rd_seconds() == cur.rd_seconds() + (h as int) * 3600
            && r.nanosecond == cur.nanosecond,
        TickDuration::Days(k) => r.rd_nanos() == cur.rd_nanos() + (k as int) * 86_400_000_000_000,
        TickDuration::Weeks(w) => r.rd_nanos() == cur.rd_nanos() + (w as int) * 7
            * 86_400_000_000_000,
        TickDuration::Months(m) => r == cur.add_months_spec(m as int),
        TickDuration::Years(y) => r == cur.add_years_spec(y as int),
    }
}

/// Moves one tick interval forward.
fn dur_add(cur: DateTime, d: TickDuration) -> (r: DateTime)
    requires
        cur.wf(),
        incr_sane(d),
        !(d matches TickDuration::Milliseconds(m) && m == 0),
        cur.rd_seconds() <= 366 * 86400 * 10001,
    ensures
        r.wf(),
        r.rd_nanos() > cur.rd_nanos(),
        tick_step_shape(d, cur, r),
{
    proof {
        lemma_dby_monotone(1, MAX_YEAR as int + 1);
        lemma_rd_below_max(cur);
        // the year stays small enough for calendar adds
        assert(365 * (cur.year - 1) <= cur.rata_die()) by {
            lemma_dby_monotone(1, cur.year as int);
            crate::datetime::lemma_dbm_bounds(cur.year as int, cur.month as int);
        }
    }
    match d {
        TickDuration::Milliseconds(m) => cur.add_millis(m),
        TickDuration::Seconds(s) => cur.add_seconds(s),
        TickDuration::Minutes(m) => cur.add_seconds((m as i64) * 60),
        TickDuration::Hours(h) => cur.add_seconds((h as i64) * 3600),
        TickDuration::Days(k) => cur.add_days(k as i64),
        TickDuration::Weeks(w) => cur.add_days((w as i64) * 7),
        TickDuration::Months(m) => cur.add_months(m as i64),
        TickDuration::Years(y) => cur.add_years(y as i64),
    }
}

impl<S: Numeric> ScaleTime<S, NumberInterpolator> {
    /// A new time scale: the first day of the year 2000 as its domain, the
    /// unit interval as its range, no clamping.
    pub fn new() -> (r: Self)
        ensures
            r.domain.start == (DateTime {
                year: 2000,
                month: 1,
                day: 1,
                hour: 0,
                minute: 0,
                second: 0,
                nanosecond: 0,
            }),
            r.domain.end == (DateTime {
                year: 2000,
                month: 1,
                day: 2,
                hour: 0,
                minute: 0,
                second: 0,
                nanosecond: 0,
            }),
            r.domain.start.wf() && r.domain.end.wf(),
            r.range.start == S::of_int_spec(0) && r.range.end == S::of_int_spec(1),
            !r.clamped,
            r.interpolator == (NumberInterpolator {  }),
    {
        Self {
            domain: Range {
                start: DateTime {
                    year: 2000,
                    month: 1,
                    day: 1,
                    hour: 0,
                    minute: 0,
                    second: 0,
                    nanosecond: 0,
                },
                end: DateTime {
                    year: 2000,
                    month: 1,
                    day: 2,
                    hour: 0,
                    minute: 0,
                    second: 0,
                    nanosecond: 0,
                },
            },
            range: Range { start: S::of_int(0), end: S::of_int(1) },
            clamped: false,
            interpolator: NumberInterpolator {  },
        }
    }

    /// A copy of this scale with another interpolator.
    pub fn interpolator<NewInterpolator: RangeInterpolator<S>>(
        self,
        interpolator: NewInterpolator,
    ) -> (r: ScaleTime<S, NewInterpolator>)
        ensures
            r.domain == self.domain,
            r.range == self.range,
            r.clamped == self.clamped,
            r.interpolator == interpolator,
    {
        ScaleTime { interpolator, domain: self.domain, range: self.range, clamped: self.clamped }
    }
}

impl<S: Numeric, InterpolatorType: RangeInterpolator<S>> ScaleContinuous<
    DateTime,
    S,
> for ScaleTime<S, InterpolatorType> {
    /// The domain must be a real ascending calendar interval with room for
    /// rounding: at least a year into the calendar and at most four-digit
    /// years, a positive tick count, and no multi-millennium year step
    /// reaching below year one.
    open spec fn can_nice(&self, count: Option<i32>) -> bool {
        &&& self.domain.start.wf()
        &&& self.domain.end.wf()
        &&& self.domain.start.rd_nanos() <= self.domain.end.rd_nanos()
        &&& count_or_ten(count) >= 1
        &&& self.domain.end.year <= 9999
        &&& (scale_increment(self.domain, count) matches TickDuration::Years(y) ==> y
            <= self.domain.start.year)
    }

    /// The endpoints and the input must be real calendar instants and all
    /// offsets must fit the machine's nanosecond counter.
    open spec fn can_scale(&self, t: DateTime) -> bool {
        &&& self.domain.start.wf()
        &&& self.domain.end.wf()
        &&& t.wf()
        &&& 0 <= self.domain.end.rd_nanos() - self.domain.start.rd_nanos() <= i64::MAX
            - 2_000_000_000
        &&& -(i64::MAX - 2_000_000_000 as int) <= t.rd_nanos() - self.domain.start.rd_nanos()
            <= i64::MAX - 2_000_000_000
    }

    /// The domain must be a real ascending calendar interval within
    /// four-digit years, and the span per tick at least one second — a
    /// finer target would pick a zero-length increment and the walk would
    /// never move.
    open spec fn can_ticks(&self, count: Option<i32>) -> bool {
        &&& self.domain.start.wf()
        &&& self.domain.end.wf()
        &&& self.domain.start.rd_nanos() <= self.domain.end.rd_nanos()
        &&& count_or_ten(count) >= 1
        &&& self.domain.end.year <= 9999
        &&& (self.domain.end.rd_nanos() - self.domain.start.rd_nanos()) / count_or_ten(count)
            >= 1_000_000_000
    }

    /// A copy of this scale with the given domain: refused as descending
    /// when the endpoints are out of order, and as degenerate when either
    /// is no real calendar instant.
    fn domain(self, domain: Range<DateTime>) -> (r: Result<Self, BuckyError>)
        ensures
            match r {
                Ok(sc) => {
                    &&& domain.start.wf() && domain.end.wf()
                    &&& domain.start.rd_nanos() <= domain.end.rd_nanos()
                    &&& sc == (Self { domain, ..self })
                },
                Err(e) => if !domain.start.wf() || !domain.end.wf() {
                    e == BuckyError::DegenerateDomain
                } else {
                    domain.start.rd_nanos() > domain.end.rd_nanos() && e
                        == BuckyError::DescendingScale
                },
            },
    {
        if !domain.start.is_valid() || !domain.end.is_valid() {
            Err(BuckyError::DegenerateDomain)
        } else if domain.start.before_eq(&domain.end) {
            Ok(Self { domain, ..self })
        } else {
            Err(BuckyError::DescendingScale)
        }
    }

    /// A copy of this scale with the given output range.
    fn range(self, range: Range<S>) -> (r: Result<Self, BuckyError>)
        ensures
            r == Ok::<Self, BuckyError>(Self { range, ..self }),
    {
        Ok(Self { range, ..self })
    }

    /// A copy of this scale with clamping switched on or off.
    fn clamped(self, clamped: bool) -> (r: Self)
        ensures
            r == (Self { clamped, ..self }),
    {
        Self { clamped, ..self }
    }

    /// Widens the domain outward to the calendar grid of the increment the
    /// domain's span picks: the start floors to it, the end ceils to it, and
    /// endpoints already on the grid stay in place. A sub-second increment
    /// leaves the domain untouched; a weekly one fails loudly, weekly
    /// alignment being a deliberate gap.
    fn nice(self, count: Option<i32>) -> (r: Result<Self, BuckyError>)
        ensures
            ({
                let d = scale_increment(self.domain, count);
                &&& match r {
                    Ok(sc) => {
                        &&& sc.range == self.range
                        &&& sc.clamped == self.clamped
                        &&& sc.interpolator == self.interpolator
                        &&& sc.domain.start.wf()
                        &&& sc.domain.end.wf()
                        &&& if d matches TickDuration::Milliseconds(m) && m == 0 {
                            sc == self
                        } else {
                            &&& !(d is Weeks)
                            &&& floor_shape(d, self.domain.start, sc.domain.start)
                            &&& ceil_shape(d, self.domain.end, sc.domain.end)
                            &&& sc.domain.start.rd_nanos() <= sc.domain.end.rd_nanos()
                        }
                    },
                    Err(e) => d is Weeks && e == BuckyError::Unimplemented,
                }
                &&& (d is Weeks ==> r == Err::<Self, BuckyError>(BuckyError::Unimplemented))
                &&& ((d matches TickDuration::Milliseconds(m) && m == 0) ==> r == Ok::<
                    Self,
                    BuckyError,
                >(self))
                &&& ((r is Err) <==> d is Weeks)
            }),
    {
        let c: i32 = match count {
            Some(c) => c,
            None => 10,
        };
        let increment = self.domain.tick_increment(c);
        proof {
            lemma_increment_cases(self.domain.start, self.domain.end, c as int);
        }
        match increment {
            TickDuration::Milliseconds(0) | TickDuration::Seconds(0) => Ok(self),
            _ => {
                proof {
                    lemma_nice_room(self.domain.start, self.domain.end, increment);
                }
                let round_start = match increment.floor(&self.domain.start) {
                    Ok(v) => v,
                    Err(e) => {
                        return Err(e);
                    },
                };
                let round_end = match increment.ceil(&self.domain.end) {
                    Ok(v) => v,
                    Err(e) => {
                        return Err(e);
                    },
                };
                proof {
                    if !(increment is Milliseconds) {
                        assert(ceil_shape(increment, self.domain.end, round_end));
                        assert(round_start.rd_nanos() <= self.domain.start.rd_nanos());
                        assert(round_end.rd_nanos() >= self.domain.end.rd_nanos());
                    } else {
                        lemma_millis_nice_ordered(
                            self.domain.start,
                            self.domain.end,
                            c as int,
                            round_start,
                            round_end,
                        );
                    }
                }
                ScaleContinuous::domain(self, Range { start: round_start, end: round_end })
            },
        }
    }

    /// Maps one instant into the range: its nanosecond offset inside the
    /// domain — after clamping, when clamping is on — normalized and
    /// blended into the range.
    fn scale(&self, t: DateTime) -> (r: S)
        ensures
            ({
                let clamped = if self.clamped {
                    if t.rd_nanos() < self.domain.start.rd_nanos() {
                        self.domain.start
                    } else if self.domain.end.rd_nanos() < t.rd_nanos() {
                        self.domain.end
                    } else {
                        t
                    }
                } else {
                    t
                };
                r == self.interpolator.interpolate_spec(
                    self.range,
                    S::ratio_spec(
                        (clamped.rd_nanos() - self.domain.start.rd_nanos()) as i64,
                        (self.domain.end.rd_nanos() - self.domain.start.rd_nanos()) as i64,
                    ),
                )
            }),
    {
        let clamped = if self.clamped {
            if !self.domain.start.before_eq(&t) {
                self.domain.start
            } else if !t.before_eq(&self.domain.end) {
                self.domain.end
            } else {
                t
            }
        } else {
            t
        };
        proof {
            lemma_rd_below_max(self.domain.start);
            lemma_rd_below_max(self.domain.end);
            lemma_rd_below_max(t);
            lemma_dby_bounds(MAX_YEAR as int + 1);
            assert(clamped == self.domain.start || clamped == self.domain.end || clamped == t);
            assert((clamped.rd_seconds() - self.domain.start.rd_seconds()) * 1_000_000_000
                == clamped.rd_nanos() - self.domain.start.rd_nanos() - clamped.nanosecond
                + self.domain.start.nanosecond);
            assert((self.domain.end.rd_seconds() - self.domain.start.rd_seconds()) * 1_000_000_000
                == self.domain.end.rd_nanos() - self.domain.start.rd_nanos()
                - self.domain.end.nanosecond + self.domain.start.nanosecond);
        }
        let num: i64 = (clamped.rd_seconds_x() - self.domain.start.rd_seconds_x()) * 1_000_000_000
            + (clamped.nanosecond - self.domain.start.nanosecond);
        let den: i64 = (self.domain.end.rd_seconds_x() - self.domain.start.rd_seconds_x())
            * 1_000_000_000 + (self.domain.end.nanosecond - self.domain.start.nanosecond);
        self.interpolator.interpolate_range(&self.range, S::ratio(num, den))
    }

    /// The tick positions: from the domain's start, stepping by the
    /// increment the span picks, up to and including the domain's end. The
    /// positions ascend, stay inside the domain, and one more step would
    /// leave it.
    #[verifier::rlimit(100)]
    fn ticks(&self, count: Option<i32>) -> (r: Vec<DateTime>)
        ensures
            ({
                let d = scale_increment(self.domain, count);
                &&& r@.len() >= 1
                &&& r@[0] == self.domain.start
                &&& forall|i: int|
                    0 <= i < r@.len() ==> (#[trigger] r@[i]).wf()
                        && self.domain.start.rd_nanos() <= r@[i].rd_nanos()
                        <= self.domain.end.rd_nanos()
                &&& forall|i: int|
                    0 <= i < r@.len() - 1 ==> tick_step_shape(d, #[trigger] r@[i], r@[i + 1])
                        && r@[i].rd_nanos() < r@[i + 1].rd_nanos()
                &&& forall|next: DateTime|
                    tick_step_shape(d, r@[r@.len() - 1], next) && next.wf() ==> next.rd_nanos()
                        > self.domain.end.rd_nanos()
            }),
    {
        let c: i32 = match count {
            Some(c) => c,
            None => 10,
        };
        let increment = self.domain.tick_increment(c);
        proof {
            lemma_increment_cases(self.domain.start, self.domain.end, c as int);
            assert(!(increment matches TickDuration::Milliseconds(m) && m == 0)) by {
                let span_ns = self.domain.end.rd_nanos() - self.domain.start.rd_nanos();
                let tgt_ns = span_ns / (c as int);
                vstd::arithmetic::div_mod::lemma_div_is_ordered(
                    1_000_000_000,
                    tgt_ns,
                    1_000_000_000,
                );
            }
        }
        proof {
            lemma_rd_below_max(self.domain.end);
            crate::datetime::lemma_dby_bounds(10000);
            assert(self.domain.end.rata_die() < crate::datetime::days_before_year(10000)) by {
                let e = self.domain.end;
                crate::datetime::lemma_dbm_bounds(e.year as int, e.month as int);
                crate::datetime::lemma_dbm_13(e.year as int);
                crate::datetime::lemma_dbm_monotone(e.year as int, e.month as int, 13);
                assert(crate::datetime::days_before_year(e.year as int)
                    + crate::datetime::year_len(e.year as int)
                    == crate::datetime::days_before_year(e.year as int + 1));
                lemma_dby_monotone(e.year as int + 1, 10000);
            }
        }
        let ghost d = increment;
        let start = self.domain.start;
        let end = self.domain.end;
        let mut out: Vec<DateTime> = Vec::new();
        let mut cur = start;
        while cur.before_eq(&end)
            invariant
                cur.wf(),
                start.wf(),
                end.wf(),
                end.rd_seconds() <= 366 * 86400 * 10000,
                incr_sane(d),
                !(d matches TickDuration::Milliseconds(m) && m == 0),
                d == increment,
                if out@.len() == 0 {
                    cur == start
                } else {
                    &&& out@[0] == start
                    &&& tick_step_shape(d, out@[out@.len() - 1], cur)
                    &&& out@[out@.len() - 1].rd_nanos() < cur.rd_nanos()
                },
                forall|i: int|
                    0 <= i < out@.len() ==> (#[trigger] out@[i]).wf() && start.rd_nanos()
                        <= out@[i].rd_nanos() <= end.rd_nanos(),
                forall|i: int|
                    0 <= i < out@.len() - 1 ==> tick_step_shape(d, #[trigger] out@[i], out@[i + 1])
                        && out@[i].rd_nanos() < out@[i + 1].rd_nanos(),
                cur.rd_nanos() >= start.rd_nanos(),
            decreases (if cur.rd_nanos() <= end.rd_nanos() {
                end.rd_nanos() - cur.rd_nanos() + 1
            } else {
                0
            }),
        {
            out.push(cur);
            proof {
                lemma_rd_below_max(cur);
                assert(cur.rd_seconds() <= 366 * 86400 * 10001);
            }
            cur = dur_add(cur, increment);
        }
        proof {
            assert(out@.len() >= 1);
        }
        out
    }
}

/// Rounding room for the increments the ladder picks: the floor and the
/// ceiling of a four-digit-year domain stay inside the supported calendar.
proof fn lemma_nice_room(start: DateTime, end: DateTime, d: TickDuration)
    requires
        start.wf(),
        end.wf(),
        start.rd_nanos() <= end.rd_nanos(),
        end.year <= 9999,
        incr_sane(d),
        !(d matches TickDuration::Milliseconds(m) && m == 0),
        !(d matches TickDuration::Seconds(s) && s == 0),
        (d matches TickDuration::Years(y) ==> y <= start.year),
    ensures
        d.floor_ok(start),
        !(d is Weeks) ==> d.ceil_ok(end),
        !(d is Weeks) && !(d is Milliseconds) ==> d.floor_spec(start).rd_nanos()
            <= start.rd_nanos(),
        forall|c: DateTime|
            !(d is Weeks) && !(d is Milliseconds) && #[trigger] ceil_shape(d, end, c) && c.wf()
                ==> c.rd_nanos() >= end.rd_nanos(),
{
    lemma_dby_monotone(1, MAX_YEAR as int + 1);
    lemma_dby_bounds(MAX_YEAR as int + 1);
    lemma_rd_below_max(start);
    lemma_rd_below_max(end);
    if end.year < start.year {
        crate::datetime::lemma_date_order(end, start);
        assert(end.rata_die() < start.rata_die());
        assert(end.rd_seconds() < start.rd_seconds());
        assert(end.rd_nanos() < (end.rd_seconds() + 1) * 1_000_000_000);
        assert((end.rd_seconds() + 1) * 1_000_000_000 <= start.rd_seconds() * 1_000_000_000);
        assert(start.rd_seconds() * 1_000_000_000 <= start.rd_nanos());
        assert(false);
    }
    assert(end.year >= start.year);
    assert(end.rata_die() < crate::datetime::days_before_year(10000)) by {
        crate::datetime::lemma_dbm_bounds(end.year as int, end.month as int);
        crate::datetime::lemma_dbm_13(end.year as int);
        crate::datetime::lemma_dbm_monotone(end.year as int, end.month as int, 13);
        assert(crate::datetime::days_before_year(end.year as int) + crate::datetime::year_len(
            end.year as int,
        ) == crate::datetime::days_before_year(end.year as int + 1));
        lemma_dby_monotone(end.year as int + 1, 10000);
    }
    lemma_dby_bounds(10000);
    match d {
        TickDuration::Milliseconds(m) => {
            let ts = TickDuration::unix_millis(end);
            let rem = rem_of_int(ts, m);
            assert(d.millis_floor_seconds(end) + m / 1000 + 1 <= DateTime::max_rata_die() * 86400
                + 86399) by {
                lemma_rd_below_max(epoch());
                if i64::MIN <= ts <= i64::MAX {
                    if ts >= 0 {
                        lemma_rem_nonneg(ts as i64, m);
                    } else {
                        lemma_rem_neg(ts as i64, m);
                    }
                }
                assert(end.rd_seconds() <= 366 * 86400 * 10000);
                assert((end.rd_nanos() - rem * 1_000_000) <= (end.rd_seconds() + 2)
                    * 1_000_000_000);
                vstd::arithmetic::div_mod::lemma_div_is_ordered(
                    end.rd_nanos() - rem * 1_000_000,
                    (end.rd_seconds() + 2) * 1_000_000_000,
                    1_000_000_000,
                );
                vstd::arithmetic::div_mod::lemma_div_multiples_vanish(
                    end.rd_seconds() + 2,
                    1_000_000_000,
                );
                vstd::arithmetic::mul::lemma_mul_is_commutative(
                    end.rd_seconds() + 2,
                    1_000_000_000,
                );
                assert(((end.rd_seconds() + 2) * 1_000_000_000) / 1_000_000_000 == end.rd_seconds()
                    + 2);
                assert(d.millis_floor_seconds(end) <= end.rd_seconds() + 2);
            }
            assert(d.ceil_ok(end));
        },
        TickDuration::Seconds(s) => {
            lemma_rem_nonneg(end.second, s);
            lemma_rem_nonneg(start.second, s);
            assert(d.ceil_ok(end));
            assert forall|c: DateTime| #[trigger]
                ceil_shape(d, end, c) && c.wf() implies c.rd_nanos() >= end.rd_nanos() by {
                if !d.on_grid(end) {
                    assert(c.rd_seconds() >= end.rd_seconds() + 1);
                }
            }
        },
        TickDuration::Minutes(m) => {
            lemma_rem_nonneg(end.minute, m as i64);
            lemma_rem_nonneg(start.minute, m as i64);
            assert(d.ceil_ok(end));
            assert forall|c: DateTime| #[trigger]
                ceil_shape(d, end, c) && c.wf() implies c.rd_nanos() >= end.rd_nanos() by {
                if !d.on_grid(end) {
                    assert(c.rd_seconds() >= end.rd_seconds() + 1);
                }
            }
        },
        TickDuration::Hours(h) => {
            lemma_rem_nonneg(end.hour, h as i64);
            lemma_rem_nonneg(start.hour, h as i64);
            assert(d.ceil_ok(end));
            assert forall|c: DateTime| #[trigger]
                ceil_shape(d, end, c) && c.wf() implies c.rd_nanos() >= end.rd_nanos() by {
                if !d.on_grid(end) {
                    assert(c.rd_seconds() >= end.rd_seconds() + 1);
                }
            }
        },
        TickDuration::Days(k) => {
            crate::datetime::lemma_dbm_bounds(start.year as int, start.month as int);
            crate::datetime::lemma_dbm_bounds(end.year as int, end.month as int);
            assert(1 <= start.ordinal_spec() <= 366);
            assert(1 <= end.ordinal_spec() <= 366);
            lemma_rem_nonneg((start.ordinal_spec() - 1) as i64, k as i64);
            lemma_rem_nonneg((end.ordinal_spec() - 1) as i64, k as i64);
            let o = end.ordinal_spec();
            let rem = rem_of((o - 1) as i64, k as i64);
            assert(end.ordinal_spec() <= crate::datetime::year_len(end.year as int));
            crate::array::ticks::time_duration::lemma_ord_to_md_wf(end.year as int, 1, o - rem);
            assert(d.floor_spec(end).rata_die() == end.rata_die() - rem);
            assert(d.ceil_ok(end));
            let o_s = start.ordinal_spec();
            let rem_s = rem_of((o_s - 1) as i64, k as i64);
            assert(start.ordinal_spec() <= crate::datetime::year_len(start.year as int));
            crate::array::ticks::time_duration::lemma_ord_to_md_wf(
                start.year as int,
                1,
                o_s - rem_s,
            );
            assert(d.floor_spec(start).rata_die() <= start.rata_die());
            assert(d.floor_spec(start).rd_nanos() <= start.rd_nanos());
            assert forall|c: DateTime| #[trigger]
                ceil_shape(d, end, c) && c.wf() implies c.rd_nanos() >= end.rd_nanos() by {
                if !d.on_grid(end) {
                    assert(c.rata_die() >= end.rata_die() + 1);
                }
            }
        },
        TickDuration::Weeks(_) => {
        },
        TickDuration::Months(m) => {
            lemma_rem_nonneg((end.month - 1) as i64, m as i64);
            lemma_rem_nonneg((start.month - 1) as i64, m as i64);
            assert(d.floor_ok(end));
            assert(d.floor_spec(end).month_index() + m <= MAX_YEAR * 12 + 11);
            assert(d.ceil_ok(end));
            let rem_s = rem_of((start.month - 1) as i64, m as i64);
            assert(d.floor_spec(start).rd_nanos() <= start.rd_nanos()) by {
                crate::datetime::lemma_dbm_bounds(start.year as int, start.month as int);
                if rem_s > 0 {
                    crate::datetime::lemma_dbm_monotone(
                        start.year as int,
                        start.month as int - rem_s,
                        start.month as int,
                    );
                }
            }
            let rem_e = rem_of((end.month - 1) as i64, m as i64);
            let f = d.floor_spec(end);
            assert forall|c: DateTime| #[trigger]
                ceil_shape(d, end, c) && c.wf() implies c.rd_nanos() >= end.rd_nanos() by {
                if !d.on_grid(end) {
                    let idx = f.month_index() + m;
                    vstd::arithmetic::div_mod::lemma_fundamental_div_mod(idx, 12);
                    assert(c.year * 12 + c.month - 1 == idx);
                    assert(idx > end.month_index());
                    assert(end.year < c.year || (end.year == c.year && end.month < c.month));
                    crate::datetime::lemma_date_order(end, c);
                    assert(c.rata_die() >= end.rata_die() + 1);
                    assert(c.minute == 0 && c.second == 0 && c.nanosecond == 0);
                }
            }
        },
        TickDuration::Years(y) => {
            lemma_rem_nonneg(start.year, y as i64);
            lemma_rem_nonneg(end.year, y as i64);
            assert(d.ceil_ok(end));
            assert(d.floor_spec(start).rd_nanos() <= start.rd_nanos()) by {
                crate::datetime::lemma_dbm_bounds(start.year as int, start.month as int);
                let f = d.floor_spec(start);
                if f.year < start.year {
                    crate::datetime::lemma_date_order(f, start);
                } else {
                    if start.month > 1 {
                        crate::datetime::lemma_dbm_monotone(start.year as int, 1,
                            start.month as int);
                    }
                }
            }
            assert forall|c: DateTime| #[trigger]
                ceil_shape(d, end, c) && c.wf() implies c.rd_nanos() >= end.rd_nanos() by {
                if !d.on_grid(end) {
                    assert(c.year > end.year);
                    crate::datetime::lemma_date_order(end, c);
                    assert(c.rata_die() >= end.rata_die() + 1);
                }
            }
        },
    }
}

/// On the one-second millisecond rung the floored start never passes the
/// ceiled end: each tick spans at least a second there, while the rounding
/// moves either endpoint by less than one.
proof fn lemma_millis_nice_ordered(
    start: DateTime,
    end: DateTime,
    count: int,
    round_start: DateTime,
    round_end: DateTime,
)
    requires
        start.wf(),
        end.wf(),
        round_start.wf(),
        round_end.wf(),
        count >= 1,
        start.rd_nanos() <= end.rd_nanos(),
        increment_spec(start, end, count) matches TickDuration::Milliseconds(m) && m == 1000,
        round_start.nanosecond == 0,
        round_start.rd_seconds() == (start.rd_nanos() - rem_of_int(
            TickDuration::unix_millis(start),
            1000,
        ) * 1_000_000) / 1_000_000_000,
        ceil_shape(increment_spec(start, end, count), end, round_end),
    ensures
        round_start.rd_nanos() <= round_end.rd_nanos(),
{
    let d = increment_spec(start, end, count);
    let ks = start.rd_nanos();
    let ke = end.rd_nanos();
    // the millisecond rung only fires when each tick spans at least a second
    assert(ke >= ks + 1_000_000_000) by {
        let span_ns = ke - ks;
        let tgt_ns = span_ns / count;
        let tgt_s = tgt_ns / 1_000_000_000;
        assert(tgt_s == 1);
        vstd::arithmetic::div_mod::lemma_fundamental_div_mod(tgt_ns, 1_000_000_000);
        assert(tgt_ns >= 1_000_000_000);
        vstd::arithmetic::div_mod::lemma_fundamental_div_mod(span_ns, count);
        vstd::arithmetic::div_mod::lemma_mod_bound(span_ns, count);
        assert(span_ns >= count * tgt_ns);
        assert(span_ns >= 1_000_000_000) by (nonlinear_arith)
            requires
                span_ns >= count * tgt_ns,
                tgt_ns >= 1_000_000_000,
                count >= 1,
        ;
    }
    crate::datetime::lemma_dby_bounds(MAX_YEAR as int + 1);
    crate::datetime::lemma_rd_below_max(start);
    crate::datetime::lemma_rd_below_max(end);
    crate::datetime::lemma_rd_below_max(epoch());
    let ts_s = TickDuration::unix_millis(start);
    let rem_s = rem_of_int(ts_s, 1000);
    if ts_s >= 0 {
        lemma_rem_nonneg(ts_s as i64, 1000);
    } else {
        lemma_rem_neg(ts_s as i64, 1000);
    }
    let xs = ks - rem_s * 1_000_000;
    assert(round_start.rd_nanos() <= xs) by {
        vstd::arithmetic::div_mod::lemma_fundamental_div_mod(xs, 1_000_000_000);
        vstd::arithmetic::div_mod::lemma_mod_bound(xs, 1_000_000_000);
    }
    if d.on_grid(end) {
        assert(round_end == end);
        assert(xs <= ks + 999_000_000);
    } else {
        let ts_e = TickDuration::unix_millis(end);
        let rem_e = rem_of_int(ts_e, 1000);
        if ts_e >= 0 {
            lemma_rem_nonneg(ts_e as i64, 1000);
        } else {
            lemma_rem_neg(ts_e as i64, 1000);
        }
        let xe = ke - rem_e * 1_000_000;
        let msf = d.millis_floor_seconds(end);
        assert(round_end.rd_nanos() == msf * 1_000_000_000 + 1_000_000_000);
        // the start's rounding point sits less than one interval past the
        // end's, so its second is at most one above the end's floor second
        assert(xs <= xe + 999_000_000);
        assert(round_start.rd_seconds() <= msf + 1) by {
            vstd::arithmetic::div_mod::lemma_div_is_ordered(
                xs,
                xe + 1_000_000_000,
                1_000_000_000,
            );
            vstd::arithmetic::div_mod::lemma_div_plus_one(xe, 1_000_000_000);
        }
        assert(round_start.rd_nanos() == round_start.rd_seconds() * 1_000_000_000);
    }
}

/// Widening a domain is idempotent once its endpoints sit on the grid of
/// the increment that domain picks: the shapes `nice` guarantees then force
/// the domain to come back unchanged. A domain `nice` has already aligned
/// satisfies this whenever the widened domain picks an increment whose grid
/// still carries its endpoints — in particular whenever it picks the same
/// increment, since every floored instant lies on its own interval's grid.
pub proof fn lemma_nice_fixed_point(
    dom: Range<DateTime>,
    count: Option<i32>,
    s2: DateTime,
    e2: DateTime,
)
    requires
        dom.start.wf(),
        dom.end.wf(),
        s2.wf(),
        e2.wf(),
        scale_increment(dom, count).on_grid(dom.start),
        scale_increment(dom, count).on_grid(dom.end),
        floor_shape(scale_increment(dom, count), dom.start, s2),
        ceil_shape(scale_increment(dom, count), dom.end, e2),
    ensures
        s2 == dom.start,
        e2 == dom.end,
{
    let d = scale_increment(dom, count);
    match d {
        TickDuration::Milliseconds(m) => {
            assert(s2.rd_nanos() == dom.start.rd_nanos());
            crate::datetime::lemma_rd_injective(s2, dom.start);
        },
        _ => {
        },
    }
}

/// Tick positions ascend globally, not just between neighbours: from the
/// step-by-step increase of `ticks`, any later tick is strictly later in
/// time.
pub proof fn lemma_ticks_ascending(s: Seq<DateTime>, i: int, j: int)
    requires
        forall|q: int| 0 <= q < s.len() - 1 ==> (#[trigger] s[q].rd_nanos()) < s[q + 1].rd_nanos(),
        0 <= i < j < s.len(),
    ensures
        s[i].rd_nanos() < s[j].rd_nanos(),
    decreases j - i,
{
    if j > i + 1 {
        lemma_ticks_ascending(s, i, j - 1);
    }
}

} // verus!
