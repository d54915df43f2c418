//! Tick increments for calendar time domains: picking a round calendar
//! interval whose length best matches the requested tick count.

use crate::array::ticks::time_duration::TickDuration;
use crate::array::ticks::TickIncrement;
use crate::datetime::DateTime;
use core::ops::Range;
use vstd::prelude::*;

verus! {

/// Ten to the power `e`.
pub open spec fn pow10(e: nat) -> int
    decreases e,
{
    if e == 0 {
        1
    } else {
        10 * pow10((e - 1) as nat)
    }
}

/// Computes ten to the power `e`.
pub fn pow10_x(e: u32) -> (r: i64)
    requires
        e <= 6,
    ensures
        r == pow10(e as nat),
        1 <= r <= 1_000_000,
{
    let mut r: i64 = 1;
    let mut i: u32 = 0;
    while i < e
        invariant
            0 <= i <= e,
            e <= 6,
            r == pow10(i as nat),
            1 <= r <= pow10(i as nat),
            r <= 1_000_000,
        decreases e - i,
    {
        proof {
            lemma_pow10_bounds(i as nat + 1);
        }
        r = r * 10;
        i = i + 1;
    }
    r
}

/// Powers of ten up to the sixth stay within small bounds.
pub proof fn lemma_pow10_bounds(e: nat)
    requires
        e <= 6,
    ensures
        1 <= pow10(e) <= 1_000_000,
        e <= 4 ==> pow10(e) <= 10_000,
{
    reveal_with_fuel(pow10, 8);
}

/// The decimal magnitude of the fraction `p / q`: the largest exponent `e`
/// at most 4 with ten to the `e` not above the fraction, found from `e0` up.
pub open spec fn dec_magnitude(p: int, q: int, e0: nat) -> nat
    decreases 5 - e0,
{
    if e0 >= 4 || pow10(e0 + 1) * q > p {
        e0
    } else {
        dec_magnitude(p, q, e0 + 1)
    }
}

/// The tick step for a span of `years` years at `count` requested ticks: a
/// power of ten times 1, 2 or 5, chosen by the square of the ratio between
/// the raw step and its decimal magnitude against the squared thresholds
/// fifty, ten and two.
pub open spec fn year_step(years: int, count: int) -> int {
    let e = dec_magnitude(years, count, 0);
    let t = pow10(e) * count;
    let tt = t * t;
    let yy = years * years;
    if yy >= 50 * tt {
        10 * pow10(e)
    } else if yy >= 10 * tt {
        5 * pow10(e)
    } else if yy >= 2 * tt {
        2 * pow10(e)
    } else {
        pow10(e)
    }
}

/// True when `a * b` is at most `c`, for small non-negative factors.
fn mul_le(a: i64, b: i64, c: i64) -> (r: bool)
    requires
        0 <= a <= 1_000_000,
        0 <= b <= 40_000,
    ensures
        r == (a * b <= c),
{
    proof {
        assert(0 <= a * b <= 40_000_000_000) by (nonlinear_arith)
            requires
                0 <= a <= 1_000_000,
                0 <= b <= 40_000,
        ;
    }
    let p: i64 = a * b;
    p <= c
}

/// Computes the year tick step.
pub fn year_step_x(years: i64, count: i64) -> (r: i64)
    requires
        1 <= count <= years,
        years <= 40000,
    ensures
        r == year_step(years as int, count as int),
        1 <= r <= 100_000,
{
    let mut e: u32 = 0;
    while e < 4 && mul_le(pow10_x(e + 1), count, years)
        invariant
            0 <= e <= 4,
            1 <= count <= years <= 40000,
            dec_magnitude(years as int, count as int, 0) == dec_magnitude(
                years as int,
                count as int,
                e as nat,
            ),
            pow10(e as nat) * count <= years,
        decreases 4 - e,
    {
        proof {
            lemma_pow10_bounds(e as nat + 1);
        }
        e = e + 1;
    }
    proof {
        lemma_pow10_bounds(e as nat);
        assert(dec_magnitude(years as int, count as int, e as nat) == e as nat);
    }
    let t: i64 = pow10_x(e) * count;
    proof {
        lemma_pow10_bounds(e as nat);
        assert(t <= years);
        assert(t >= 1) by (nonlinear_arith)
            requires
                t == pow10(e as nat) * count,
                pow10(e as nat) >= 1,
                count >= 1,
        ;
        assert(years * years <= 1_600_000_000) by (nonlinear_arith)
            requires
                1 <= years <= 40000,
        ;
        assert(t * t <= 1_600_000_000) by (nonlinear_arith)
            requires
                1 <= t <= 40000,
        ;
    }
    let yy: i64 = years * years;
    let tt: i64 = t * t;
    if yy >= 50 * tt {
        10 * pow10_x(e)
    } else if yy >= 10 * tt {
        5 * pow10_x(e)
    } else if yy >= 2 * tt {
        2 * pow10_x(e)
    } else {
        pow10_x(e)
    }
}

/// The round calendar intervals a time axis may tick at, from one second up
/// to one year. Above a year a computed multi-year step takes over.
pub open spec fn ladder_pick(tgt_ns: int, tgt_s: int) -> TickDuration {
    if tgt_s <= 1 {
        TickDuration::Milliseconds((tgt_s * 1000) as i64)
    } else if tgt_s <= 5 {
        pick(tgt_ns, tgt_s, TickDuration::Seconds(1), TickDuration::Seconds(5))
    } else if tgt_s <= 15 {
        pick(tgt_ns, tgt_s, TickDuration::Seconds(5), TickDuration::Seconds(15))
    } else if tgt_s <= 30 {
        pick(tgt_ns, tgt_s, TickDuration::Seconds(15), TickDuration::Seconds(30))
    } else if tgt_s <= 60 {
        pick(tgt_ns, tgt_s, TickDuration::Seconds(30), TickDuration::Minutes(1))
    } else if tgt_s <= 300 {
        pick(tgt_ns, tgt_s, TickDuration::Minutes(1), TickDuration::Minutes(5))
    } else if tgt_s <= 900 {
        pick(tgt_ns, tgt_s, TickDuration::Minutes(5), TickDuration::Minutes(15))
    } else if tgt_s <= 1800 {
        pick(tgt_ns, tgt_s, TickDuration::Minutes(15), TickDuration::Minutes(30))
    } else if tgt_s <= 3600 {
        pick(tgt_ns, tgt_s, TickDuration::Minutes(30), TickDuration::Hours(1))
    } else if tgt_s <= 10800 {
        pick(tgt_ns, tgt_s, TickDuration::Hours(1), TickDuration::Hours(3))
    } else if tgt_s <= 21600 {
        pick(tgt_ns, tgt_s, TickDuration::Hours(3), TickDuration::Hours(6))
    } else if tgt_s <= 43200 {
        pick(tgt_ns, tgt_s, TickDuration::Hours(6), TickDuration::Hours(12))
    } else if tgt_s <= 86400 {
        pick(tgt_ns, tgt_s, TickDuration::Hours(12), TickDuration::Days(1))
    } else if tgt_s <= 172800 {
        pick(tgt_ns, tgt_s, TickDuration::Days(1), TickDuration::Days(2))
    } else if tgt_s <= 604800 {
        pick(tgt_ns, tgt_s, TickDuration::Days(2), TickDuration::Weeks(1))
    } else if tgt_s <= 2592000 {
        pick(tgt_ns, tgt_s, TickDuration::Weeks(1), TickDuration::Months(1))
    } else if tgt_s <= 7776000 {
        pick(tgt_ns, tgt_s, TickDuration::Months(1), TickDuration::Months(3))
    } else {
        pick(tgt_ns, tgt_s, TickDuration::Months(3), TickDuration::Years(1))
    }
}

/// Between the ladder neighbours around the target, the one whose length is
/// nearer in ratio: the lower interval wins when the target divided by it
/// undercuts the upper divided by the target.
pub open spec fn pick(tgt_ns: int, tgt_s: int, lo: TickDuration, hi: TickDuration) -> TickDuration {
    let lo_s = lo.approx_seconds_spec() as int;
    let hi_s = hi.approx_seconds_spec() as int;
    if tgt_ns / (lo_s * 1_000_000_000) < hi_s / tgt_s {
        lo
    } else {
        hi
    }
}

/// The increment a time domain picks for `count` ticks: the coarsest ladder
/// interval not shorter than the target span per tick, a computed multi-year
/// step past one year, and a degenerate zero-length interval below one
/// second.
pub open spec fn increment_spec(start: DateTime, end: DateTime, count: int) -> TickDuration {
    let span_ns = end.rd_nanos() - start.rd_nanos();
    let span_s = end.rd_seconds() - start.rd_seconds();
    let tgt_ns = span_ns / count;
    let tgt_s = tgt_ns / 1_000_000_000;
    if tgt_s > 31536000 {
        TickDuration::Years(year_step(span_s / 31536000, count) as i32)
    } else {
        ladder_pick(tgt_ns, tgt_s)
    }
}

impl TickIncrement<Range<DateTime>, TickDuration> for Range<DateTime> {
    /// Both endpoints must be real calendar instants, the domain must be
    /// ascending, and at least one tick must be asked for.
    open spec fn can_increment(&self, count: i32) -> bool {
        &&& self.start.wf()
        &&& self.end.wf()
        &&& self.start.rd_nanos() <= self.end.rd_nanos()
        &&& count >= 1
    }

    /// Picks the tick interval for this domain as `increment_spec` says.
    fn tick_increment(&self, count: i32) -> (r: TickDuration)
        ensures
            r == increment_spec(self.start, self.end, count as int),
    {
        let s: i64 = self.end.rd_seconds_x() - self.start.rd_seconds_x();
        let ns_d: i64 = self.end.nanosecond - self.start.nanosecond;
        proof {
            if s < 0 {
                assert(self.end.rd_nanos() < self.start.rd_nanos());
            }
            if s == 0 && ns_d < 0 {
                assert(self.end.rd_nanos() < self.start.rd_nanos());
            }
        }
        let total: u128 = if ns_d >= 0 {
            (s as u128) * 1_000_000_000 + (ns_d as u128)
        } else {
            (s as u128) * 1_000_000_000 - ((-ns_d) as u128)
        };
        proof {
            assert(total == self.end.rd_nanos() - self.start.rd_nanos());
        }
        let tgt_ns: u128 = total / (count as u128);
        let tgt_s: u128 = tgt_ns / 1_000_000_000;
        proof {
            let span_ns = self.end.rd_nanos() - self.start.rd_nanos();
            assert(tgt_ns == span_ns / (count as int));
            assert(tgt_s == (span_ns / (count as int)) / 1_000_000_000);
            vstd::arithmetic::div_mod::lemma_div_is_ordered(
                tgt_ns as int,
                total as int,
                1_000_000_000,
            );
            vstd::arithmetic::div_mod::lemma_div_is_ordered(tgt_s as int, total as int, 1);
        }
        if tgt_s > 31536000 {
            proof {
                assert(s >= count * 31536000) by {
                    let span_ns = self.end.rd_nanos() - self.start.rd_nanos();
                    let c = count as int;
                    vstd::arithmetic::div_mod::lemma_fundamental_div_mod(span_ns, c);
                    vstd::arithmetic::div_mod::lemma_fundamental_div_mod(span_ns / c, 1_000_000_000);
                    assert(span_ns / c >= 31536001 * 1_000_000_000);
                    assert(span_ns >= c * (span_ns / c)) by {
                        vstd::arithmetic::div_mod::lemma_mod_bound(span_ns, c);
                        vstd::arithmetic::mul::lemma_mul_is_commutative(c, span_ns / c);
                    }
                    vstd::arithmetic::mul::lemma_mul_inequality(
                        (31536001 * 1_000_000_000) as int,
                        span_ns / c,
                        c,
                    );
                    vstd::arithmetic::mul::lemma_mul_is_commutative(span_ns / c, c);
                    assert(span_ns >= c * 31536001 * 1_000_000_000) by (nonlinear_arith)
                        requires
                            span_ns >= c * (span_ns / c),
                            span_ns / c >= 31536001 * 1_000_000_000,
                            c >= 1,
                    ;
                    let span_s = self.end.rd_seconds() - self.start.rd_seconds();
                    assert(span_ns <= span_s * 1_000_000_000 + 1_000_000_000);
                    assert(span_s * 1_000_000_000 >= c * 31536000 * 1_000_000_000) by (nonlinear_arith)
                        requires
                            span_s * 1_000_000_000 + 1_000_000_000 >= c * 31536001
                                * 1_000_000_000,
                            c >= 1,
                    ;
                    assert(span_s >= c * 31536000) by (nonlinear_arith)
                        requires
                            span_s * 1_000_000_000 >= c * 31536000 * 1_000_000_000,
                    ;
                }
            }
            let years: i64 = s / 31536000;
            proof {
                assert(years >= count) by {
                    vstd::arithmetic::div_mod::lemma_div_is_ordered(
                        (count as int) * 31536000,
                        s as int,
                        31536000,
                    );
                    vstd::arithmetic::div_mod::lemma_div_multiples_vanish(count as int, 31536000);
                }
                assert(years <= 40000) by {
                    crate::datetime::lemma_dby_bounds(crate::datetime::MAX_YEAR as int + 1);
                    crate::datetime::lemma_rd_below_max(self.end);
                    vstd::arithmetic::div_mod::lemma_div_is_ordered(
                        s as int,
                        (1_098_000_000 * 86400) as int,
                        31536000,
                    );
                }
            }
            let step = year_step_x(years, count as i64);
            step_years(step)
        } else {
            let t_ns_hi: u128 = tgt_ns;
            let ts: u128 = tgt_s;
            if ts <= 1 {
                TickDuration::Milliseconds((ts as i64) * 1000)
            } else if ts <= 5 {
                pick_x(t_ns_hi, ts, TickDuration::Seconds(1), TickDuration::Seconds(5))
            } else if ts <= 15 {
                pick_x(t_ns_hi, ts, TickDuration::Seconds(5), TickDuration::Seconds(15))
            } else if ts <= 30 {
                pick_x(t_ns_hi, ts, TickDuration::Seconds(15), TickDuration::Seconds(30))
            } else if ts <= 60 {
                pick_x(t_ns_hi, ts, TickDuration::Seconds(30), TickDuration::Minutes(1))
            } else if ts <= 300 {
                pick_x(t_ns_hi, ts, TickDuration::Minutes(1), TickDuration::Minutes(5))
            } else if ts <= 900 {
                pick_x(t_ns_hi, ts, TickDuration::Minutes(5), TickDuration::Minutes(15))
            } else if ts <= 1800 {
                pick_x(t_ns_hi, ts, TickDuration::Minutes(15), TickDuration::Minutes(30))
            } else if ts <= 3600 {
                pick_x(t_ns_hi, ts, TickDuration::Minutes(30), TickDuration::Hours(1))
            } else if ts <= 10800 {
                pick_x(t_ns_hi, ts, TickDuration::Hours(1), TickDuration::Hours(3))
            } else if ts <= 21600 {
                pick_x(t_ns_hi, ts, TickDuration::Hours(3), TickDuration::Hours(6))
            } else if ts <= 43200 {
                pick_x(t_ns_hi, ts, TickDuration::Hours(6), TickDuration::Hours(12))
            } else if ts <= 86400 {
                pick_x(t_ns_hi, ts, TickDuration::Hours(12), TickDuration::Days(1))
            } else if ts <= 172800 {
                pick_x(t_ns_hi, ts, TickDuration::Days(1), TickDuration::Days(2))
            } else if ts <= 604800 {
                pick_x(t_ns_hi, ts, TickDuration::Days(2), TickDuration::Weeks(1))
            } else if ts <= 2592000 {
                pick_x(t_ns_hi, ts, TickDuration::Weeks(1), TickDuration::Months(1))
            } else if ts <= 7776000 {
                pick_x(t_ns_hi, ts, TickDuration::Months(1), TickDuration::Months(3))
            } else {
                pick_x(t_ns_hi, ts, TickDuration::Months(3), TickDuration::Years(1))
            }
        }
    }
}

/// Wraps a computed year step in its interval.
fn step_years(step: i64) -> (r: TickDuration)
    requires
        1 <= step <= 100_000,
    ensures
        r == TickDuration::Years(step as i32),
{
    TickDuration::Years(step as i32)
}

/// Computes `pick` between two ladder neighbours.
fn pick_x(tgt_ns: u128, tgt_s: u128, lo: TickDuration, hi: TickDuration) -> (r: TickDuration)
    requires
        tgt_s >= 1,
        tgt_ns / 1_000_000_000 == tgt_s,
        1 <= lo.approx_seconds_spec() <= 31536000,
        1 <= hi.approx_seconds_spec() <= 31536000,
    ensures
        r == pick(tgt_ns as int, tgt_s as int, lo, hi),
{
    let lo_s = lo.approx_seconds();
    let hi_s = hi.approx_seconds();
    let lhs: u128 = tgt_ns / ((lo_s as u128) * 1_000_000_000);
    let rhs: u128 = (hi_s as u128) / tgt_s;
    if lhs < rhs {
        lo
    } else {
        hi
    }
}

/// Every increment the ladder hands out: the magnitudes a time scale can
/// ever have to floor, ceil or walk by.
pub open spec fn incr_sane(d: TickDuration) -> bool {
    match d {
        TickDuration::Milliseconds(m) => m == 0 || m == 1000,
        TickDuration::Seconds(s) => s == 1 || s == 5 || s == 15 || s == 30,
        TickDuration::Minutes(m) => m == 1 || m == 5 || m == 15 || m == 30,
        TickDuration::Hours(h) => h == 1 || h == 3 || h == 6 || h == 12,
        TickDuration::Days(d) => d == 1 || d == 2,
        TickDuration::Weeks(w) => w == 1,
        TickDuration::Months(m) => m == 1 || m == 3,
        TickDuration::Years(y) => 1 <= y <= 10000,
    }
}

/// The decimal magnitude stays within its caps and brackets the fraction.
proof fn lemma_dec_magnitude(p: int, q: int, e0: nat)
    requires
        q >= 1,
        pow10(e0) * q <= p,
        e0 <= 4,
    ensures
        ({
            let e = dec_magnitude(p, q, e0);
            &&& e0 <= e <= 4
            &&& pow10(e) * q <= p
            &&& (e == 4 || pow10(e + 1) * q > p)
        }),
    decreases 5 - e0,
{
    if e0 < 4 && pow10(e0 + 1) * q <= p {
        lemma_dec_magnitude(p, q, e0 + 1);
    }
}

/// For the year spans a chart domain can hold, the computed year step is a
/// round number between one and ten thousand.
pub proof fn lemma_year_step_small(years: int, count: int)
    requires
        1 <= count <= years,
        years <= 10030,
    ensures
        1 <= year_step(years, count) <= 10000,
{
    lemma_pow10_bounds(0);
    assert(pow10(0) * count <= years);
    lemma_dec_magnitude(years, count, 0);
    let e = dec_magnitude(years, count, 0);
    lemma_pow10_bounds(e);
    let t = pow10(e) * count;
    assert(t >= 1) by (nonlinear_arith)
        requires
            t == pow10(e) * count,
            pow10(e) >= 1,
            count >= 1,
    ;
    if e == 4 {
        reveal_with_fuel(pow10, 6);
        assert(t >= 10000) by (nonlinear_arith)
            requires
                t == pow10(e) * count,
                pow10(e) == 10000,
                count >= 1,
        ;
        assert(years * years <= 10030 * 10030) by (nonlinear_arith)
            requires
                1 <= years <= 10030,
        ;
        assert(2 * (t * t) >= 200_000_000) by (nonlinear_arith)
            requires
                t >= 10000,
        ;
        assert(years * years < 2 * (t * t));
        assert(10 * (t * t) >= 2 * (t * t));
        assert(50 * (t * t) >= 2 * (t * t)) by (nonlinear_arith)
            requires
                t * t >= 0,
        ;
        assert(year_step(years, count) == pow10(4));
        reveal_with_fuel(pow10, 6);
    } else {
        assert(e <= 3);
        assert(pow10(e) <= 1000) by {
            reveal_with_fuel(pow10, 6);
        }
    }
}

/// The ladder only hands out the increments `incr_sane` names, and a
/// degenerate zero increment only as zero milliseconds.
pub proof fn lemma_increment_cases(start: DateTime, end: DateTime, count: int)
    requires
        start.wf(),
        end.wf(),
        start.rd_nanos() <= end.rd_nanos(),
        count >= 1,
        end.year <= 9999,
    ensures
        incr_sane(increment_spec(start, end, count)),
{
    let span_ns = end.rd_nanos() - start.rd_nanos();
    let span_s = end.rd_seconds() - start.rd_seconds();
    let tgt_ns = span_ns / count;
    let tgt_s = tgt_ns / 1_000_000_000;
    vstd::arithmetic::div_mod::lemma_div_pos_is_pos(span_ns, count);
    vstd::arithmetic::div_mod::lemma_div_pos_is_pos(tgt_ns, 1_000_000_000);
    if tgt_s > 31536000 {
        // the whole span exceeds one year per tick: the multi-year step
        let years = span_s / 31536000;
        assert(span_s >= count * 31536000 && span_ns <= span_s * 1_000_000_000 + 1_000_000_000)
            by {
            vstd::arithmetic::div_mod::lemma_fundamental_div_mod(span_ns, count);
            vstd::arithmetic::div_mod::lemma_fundamental_div_mod(span_ns / count, 1_000_000_000);
            assert(span_ns / count >= 31536001 * 1_000_000_000);
            assert(span_ns >= count * (span_ns / count)) by {
                vstd::arithmetic::div_mod::lemma_mod_bound(span_ns, count);
                vstd::arithmetic::mul::lemma_mul_is_commutative(count, span_ns / count);
            }
            assert(span_ns >= count * 31536001 * 1_000_000_000) by (nonlinear_arith)
                requires
                    span_ns >= count * (span_ns / count),
                    span_ns / count >= 31536001 * 1_000_000_000,
                    count >= 1,
            ;
            assert(span_ns == span_s * 1_000_000_000 + (end.nanosecond - start.nanosecond));
            assert(span_s * 1_000_000_000 >= count * 31536000 * 1_000_000_000) by (nonlinear_arith)
                requires
                    span_s * 1_000_000_000 + 1_000_000_000 >= count * 31536001 * 1_000_000_000,
                    count >= 1,
            ;
            assert(span_s >= count * 31536000) by (nonlinear_arith)
                requires
                    span_s * 1_000_000_000 >= count * 31536000 * 1_000_000_000,
            ;
        }
        assert(years >= count) by {
            vstd::arithmetic::div_mod::lemma_div_is_ordered(count * 31536000, span_s, 31536000);
            vstd::arithmetic::div_mod::lemma_div_multiples_vanish(count, 31536000);
        }
        assert(years <= 10030) by {
            crate::datetime::lemma_rd_below_max(end);
            crate::datetime::lemma_rd_below_max(start);
            crate::datetime::lemma_dby_bounds(10000);
            assert(end.rata_die() < crate::datetime::days_before_year(10000)) by {
                crate::datetime::lemma_dbm_bounds(end.year as int, end.month as int);
                crate::datetime::lemma_dbm_13(end.year as int);
                crate::datetime::lemma_dbm_monotone(end.year as int, end.month as int, 13);
                assert(crate::datetime::days_before_year(end.year as int) + crate::datetime::year_len(
                    end.year as int,
                ) == crate::datetime::days_before_year(end.year as int + 1));
                crate::datetime::lemma_dby_monotone(end.year as int + 1, 10000);
            }
            assert(span_s <= 366 * 86400 * 10000);
            vstd::arithmetic::div_mod::lemma_div_is_ordered(span_s, (366 * 86400 * 10000) as int, 31536000);
        }
        lemma_year_step_small(years, count);
    } else {
        // one of the ladder picks: each pick is one of its two neighbours
    }
}

} // verus!
