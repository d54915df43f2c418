//! Calendar-aware tick intervals: a duration magnitude on one of eight
//! calendar units, with flooring and ceiling of a date-time to the grid the
//! interval spans.

use crate::datetime::{days_in_month, days_in_month_x, DateTime, MAX_YEAR};
use crate::datetime::{lemma_dbm_bounds, lemma_rd_below_max};
use crate::error::BuckyError;
use vstd::prelude::*;

verus! {

/// A calendar tick interval: a magnitude on a calendar unit. Ordered and
/// compared by its approximate length in seconds (one month counted as 30
/// days, one year as 365 days — a deliberate approximation).
#[derive(Clone, Copy, Debug)]
pub enum TickDuration {
    Milliseconds(i64),
    Seconds(i64),
    Minutes(i32),
    Hours(i32),
    Days(i32),
    Weeks(i32),
    Months(i32),
    Years(i32),
}

/// The truncating remainder of `a` by `b`, as the `%` operator of the
/// machine computes it; zero when `b` is zero or the division overflows.
pub open spec fn rem_of(a: i64, b: i64) -> i64 {
    match a.checked_rem(b) {
        Some(r) => r,
        None => 0,
    }
}

/// Computes the truncating remainder of `a` by `b`.
pub fn rem_x(a: i64, b: i64) -> (r: i64)
    ensures
        r == rem_of(a, b),
{
    match a.checked_rem(b) {
        Some(r) => r,
        None => 0,
    }
}

/// For a non-negative dividend the truncating remainder lies between zero
/// and the dividend, is below the divisor's magnitude, and leaves a multiple
/// of the divisor behind.
pub proof fn lemma_rem_nonneg(a: i64, b: i64)
    requires
        a >= 0,
        b != 0,
    ensures
        0 <= rem_of(a, b) <= a,
        b > 0 ==> rem_of(a, b) < b,
        b < 0 ==> rem_of(a, b) < -b,
        (a - rem_of(a, b)) % (if b > 0 {
            b as int
        } else {
            -b as int
        }) == 0,
{
    let d: int = if b > 0 {
        b as int
    } else {
        -b as int
    };
    let ai = a as int;
    vstd::arithmetic::div_mod::lemma_fundamental_div_mod(ai, d);
    vstd::arithmetic::div_mod::lemma_mod_bound(ai, d);
    if a > 0 {
        vstd::arithmetic::div_mod::lemma_div_pos_is_pos(ai, d);
    }
    assert(ai % d <= ai) by {
        if ai % d > ai {
            vstd::arithmetic::div_mod::lemma_div_is_ordered(0, ai, d);
            assert(ai == d * (ai / d) + ai % d);
            vstd::arithmetic::mul::lemma_mul_nonnegative(d, ai / d);
        }
    }
    assert((ai - ai % d) % d == 0) by {
        assert(ai - ai % d == d * (ai / d));
        vstd::arithmetic::mul::lemma_mul_is_commutative(d, ai / d);
        vstd::arithmetic::div_mod::lemma_mod_multiples_basic(ai / d, d);
    }
}

impl TickDuration {
    /// The interval's approximate length in whole seconds, used for ordering
    /// and for picking the tick granularity (a month is taken as 30 days and
    /// a year as 365 days).
    pub open spec fn approx_seconds_spec(self) -> i64 {
        match self {
            TickDuration::Milliseconds(s) => whole_seconds_of_millis(s),
            TickDuration::Seconds(s) => s,
            TickDuration::Minutes(m) => (m as i64).wrapping_mul(60),
            TickDuration::Hours(h) => (h as i64).wrapping_mul(3600),
            TickDuration::Days(d) => (d as i64).wrapping_mul(86400),
            TickDuration::Weeks(w) => (w as i64).wrapping_mul(604800),
            TickDuration::Months(m) => (m as i64).wrapping_mul(2592000),
            TickDuration::Years(y) => (y as i64).wrapping_mul(31536000),
        }
    }

    /// Computes the approximate length in whole seconds.
    pub fn approx_seconds(&self) -> (r: i64)
        ensures
            r == self.approx_seconds_spec(),
    {
        match *self {
            TickDuration::Milliseconds(s) => match s.checked_div(1000) {
                Some(q) => q,
                None => 0,
            },
            TickDuration::Seconds(s) => s,
            TickDuration::Minutes(m) => (m as i64).wrapping_mul(60),
            TickDuration::Hours(h) => (h as i64).wrapping_mul(3600),
            TickDuration::Days(d) => (d as i64).wrapping_mul(86400),
            TickDuration::Weeks(w) => (w as i64).wrapping_mul(604800),
            TickDuration::Months(m) => (m as i64).wrapping_mul(2592000),
            TickDuration::Years(y) => (y as i64).wrapping_mul(31536000),
        }
    }
}

/// A millisecond magnitude truncated to whole seconds.
pub open spec fn whole_seconds_of_millis(ms: i64) -> i64 {
    match ms.checked_div(1000) {
        Some(q) => q,
        None => 0,
    }
}

impl PartialEq for TickDuration {
    /// Two intervals are equal when their approximate lengths agree.
    fn eq(&self, other: &TickDuration) -> (r: bool) {
        self.approx_seconds() == other.approx_seconds()
    }
}

impl vstd::std_specs::cmp::PartialEqSpecImpl for TickDuration {
    open spec fn obeys_eq_spec() -> bool {
        true
    }

    open spec fn eq_spec(&self, other: &TickDuration) -> bool {
        self.approx_seconds_spec() == other.approx_seconds_spec()
    }
}

impl PartialOrd for TickDuration {
    /// Intervals are ordered by their approximate length.
    fn partial_cmp(&self, other: &TickDuration) -> (r: Option<core::cmp::Ordering>) {
        let a = self.approx_seconds();
        let b = other.approx_seconds();
        if a < b {
            Some(core::cmp::Ordering::Less)
        } else if a == b {
            Some(core::cmp::Ordering::Equal)
        } else {
            Some(core::cmp::Ordering::Greater)
        }
    }
}

impl vstd::std_specs::cmp::PartialOrdSpecImpl for TickDuration {
    open spec fn obeys_partial_cmp_spec() -> bool {
        true
    }

    open spec fn partial_cmp_spec(&self, other: &TickDuration) -> Option<core::cmp::Ordering> {
        if self.approx_seconds_spec() < other.approx_seconds_spec() {
            Some(core::cmp::Ordering::Less)
        } else if self.approx_seconds_spec() == other.approx_seconds_spec() {
            Some(core::cmp::Ordering::Equal)
        } else {
            Some(core::cmp::Ordering::Greater)
        }
    }
}

/// Converts a day-of-year into month and day within year `y`, starting from
/// month `m`.
pub open spec fn ord_to_md(y: int, m: int, o: int) -> (int, int)
    decreases 13 - m,
{
    if m >= 12 || o <= days_in_month(y, m) {
        (m, o)
    } else {
        ord_to_md(y, m + 1, o - days_in_month(y, m))
    }
}

/// Computes month and day of year `y` from a day-of-year.
pub fn ord_to_md_x(y: i64, o: i64) -> (r: (i64, i64))
    requires
        1 <= o <= 366,
    ensures
        (r.0 as int, r.1 as int) == ord_to_md(y as int, 1, o as int),
        1 <= r.0 <= 12,
{
    let mut m: i64 = 1;
    let mut rem: i64 = o;
    while m < 12 && rem > days_in_month_x(y, m)
        invariant
            1 <= m <= 12,
            rem <= 366,
            ord_to_md(y as int, 1, o as int) == ord_to_md(y as int, m as int, rem as int),
        decreases 12 - m,
    {
        rem = rem - days_in_month_x(y, m);
        m = m + 1;
    }
    (m, rem)
}

impl TickDuration {
    /// When `floor` is free of panics on `dt`: the magnitude must not be
    /// zero, and a year grid must not reach below year one.
    pub open spec fn floor_ok(self, dt: DateTime) -> bool {
        &&& dt.wf()
        &&& match self {
            TickDuration::Milliseconds(m) => m != 0,
            TickDuration::Seconds(s) => s != 0,
            TickDuration::Minutes(m) => m != 0,
            TickDuration::Hours(h) => h != 0,
            TickDuration::Days(d) => d != 0,
            TickDuration::Weeks(_) => true,
            TickDuration::Months(m) => m != 0,
            TickDuration::Years(y) => y != 0 && dt.year - rem_of(dt.year, y as i64) >= 1,
        }
    }

    /// Milliseconds of `dt` since the Unix epoch, truncated.
    pub open spec fn unix_millis(dt: DateTime) -> int {
        (dt.rd_seconds() - epoch().rd_seconds()) * 1000 + dt.nanosecond / 1_000_000
    }

    /// What `floor` returns for each unit: the fields at or below the unit
    /// are reset to the grid, the fields above it are kept. A day grid is
    /// anchored on January 1 of the instant's year, a month grid on January,
    /// a year grid on year zero; every anchor lies on its own grid, so
    /// flooring is idempotent.
    pub open spec fn floor_spec(self, dt: DateTime) -> DateTime {
        match self {
            TickDuration::Milliseconds(m) => dt,  // described by `floor` directly
            TickDuration::Seconds(s) => DateTime {
                second: (dt.second - rem_of(dt.second, s)) as i64,
                nanosecond: 0,
                ..dt
            },
            TickDuration::Minutes(m) => DateTime {
                minute: (dt.minute - rem_of(dt.minute, m as i64)) as i64,
                second: 0,
                nanosecond: 0,
                ..dt
            },
            TickDuration::Hours(h) => DateTime {
                hour: (dt.hour - rem_of(dt.hour, h as i64)) as i64,
                minute: 0,
                second: 0,
                nanosecond: 0,
                ..dt
            },
            TickDuration::Days(d) => {
                let o = dt.ordinal_spec();
                let r = rem_of((o - 1) as i64, d as i64);
                let (m, day) = ord_to_md(dt.year as int, 1, o - r);
                DateTime {
                    month: m as i64,
                    day: day as i64,
                    hour: 0,
                    minute: 0,
                    second: 0,
                    nanosecond: 0,
                    ..dt
                }
            },
            TickDuration::Weeks(_) => dt,
            TickDuration::Months(m) => DateTime {
                month: (dt.month - rem_of((dt.month - 1) as i64, m as i64)) as i64,
                day: 1,
                hour: 0,
                minute: 0,
                second: 0,
                nanosecond: 0,
                ..dt
            },
            TickDuration::Years(y) => DateTime {
                year: (dt.year - rem_of(dt.year, y as i64)) as i64,
                month: 1,
                day: 1,
                hour: 0,
                minute: 0,
                second: 0,
                nanosecond: 0,
                ..dt
            },
        }
    }

    /// Rounds `dt` down to this interval's calendar grid.
    ///
    /// Weekly alignment is a deliberate gap and fails loudly with
    /// `Unimplemented`. Flooring by milliseconds aligns the instant's Unix
    /// millisecond count and so, before 1970, rounds toward the epoch, as
    /// truncating remainders do.
    pub fn floor(&self, date_time: &DateTime) -> (r: Result<DateTime, BuckyError>)
        requires
            self.floor_ok(*date_time),
        ensures
            match r {
                Ok(f) => {
                    &&& !(self is Weeks)
                    &&& f.wf()
                    &&& match *self {
                        TickDuration::Milliseconds(m) => f.nanosecond == 0 && f.rd_seconds() == (
                        date_time.rd_nanos() - rem_of_int(TickDuration::unix_millis(*date_time), m)
                            * 1_000_000) / 1_000_000_000,
                        _ => f == self.floor_spec(*date_time),
                    }
                },
                Err(e) => self is Weeks && e == BuckyError::Unimplemented,
            },
    {
        let dt = *date_time;
        match *self {
            TickDuration::Milliseconds(m) => {
                let ep = epoch_x();
                proof {
                    lemma_rd_below_max(dt);
                    lemma_rd_below_max(epoch());
                    crate::datetime::lemma_dby_bounds(MAX_YEAR as int + 1);
                }
                let ts: i64 = (dt.rd_seconds_x() - ep.rd_seconds_x()) * 1000 + dt.nanosecond
                    / 1_000_000;
                proof {
                    assert(ts == TickDuration::unix_millis(dt));
                }
                let rem: i64 = rem_x(ts, m);
                if ts >= 0 {
                    proof {
                        lemma_rem_nonneg(ts, m);
                        assert(ts * 1000 <= dt.rd_nanos() ==> true);
                        assert(rem * 1_000_000 <= ts * 1_000_000);
                        assert(ts * 1_000_000 <= (dt.rd_seconds() - epoch().rd_seconds())
                            * 1_000_000_000 + dt.nanosecond);
                        assert(epoch().rd_seconds() >= 0) by {
                            lemma_rd_below_max(epoch());
                        }
                    }
                    let s = dt.sub_millis(rem);
                    let f = DateTime { nanosecond: 0, ..s };
                    proof {
                        lemma_split_seconds(s);
                    }
                    Ok(f)
                } else {
                    proof {
                        lemma_rem_neg(ts, m);
                        lemma_rd_below_max(epoch());
                        lemma_rd_below_max(dt);
                        assert(dt.rd_seconds() < epoch().rd_seconds()) by {
                            if dt.rd_seconds() >= epoch().rd_seconds() {
                                assert(ts >= 0);
                            }
                        }
                    }
                    let s = dt.add_millis(-rem);
                    let f = DateTime { nanosecond: 0, ..s };
                    proof {
                        lemma_split_seconds(s);
                    }
                    Ok(f)
                }
            },
            TickDuration::Seconds(s) => {
                proof {
                    lemma_rem_nonneg(dt.second, s);
                }
                let rem = rem_x(dt.second, s);
                Ok(DateTime { second: dt.second - rem, nanosecond: 0, ..dt })
            },
            TickDuration::Minutes(m) => {
                proof {
                    lemma_rem_nonneg(dt.minute, m as i64);
                }
                let rem = rem_x(dt.minute, m as i64);
                Ok(DateTime { minute: dt.minute - rem, second: 0, nanosecond: 0, ..dt })
            },
            TickDuration::Hours(h) => {
                proof {
                    lemma_rem_nonneg(dt.hour, h as i64);
                }
                let rem = rem_x(dt.hour, h as i64);
                Ok(DateTime { hour: dt.hour - rem, minute: 0, second: 0, nanosecond: 0, ..dt })
            },
            TickDuration::Days(d) => {
                let o = dt.ordinal();
                proof {
                    lemma_rem_nonneg((o - 1) as i64, d as i64);
                }
                let rem = rem_x(o - 1, d as i64);
                let (m, day) = ord_to_md_x(dt.year, o - rem);
                proof {
                    lemma_dbm_bounds(dt.year as int, dt.month as int);
                    assert(dt.ordinal_spec() <= year_len_int(dt.year as int));
                    lemma_ord_to_md_wf(dt.year as int, 1, (o - rem) as int);
                }
                Ok(DateTime {
                    month: m,
                    day,
                    hour: 0,
                    minute: 0,
                    second: 0,
                    nanosecond: 0,
                    ..dt
                })
            },
            TickDuration::Weeks(_) => Err(BuckyError::Unimplemented),
            TickDuration::Months(m) => {
                proof {
                    lemma_rem_nonneg((dt.month - 1) as i64, m as i64);
                }
                let rem = rem_x(dt.month - 1, m as i64);
                Ok(DateTime {
                    month: dt.month - rem,
                    day: 1,
                    hour: 0,
                    minute: 0,
                    second: 0,
                    nanosecond: 0,
                    ..dt
                })
            },
            TickDuration::Years(y) => {
                proof {
                    lemma_rem_nonneg(dt.year, y as i64);
                }
                let rem = rem_x(dt.year, y as i64);
                Ok(DateTime {
                    year: dt.year - rem,
                    month: 1,
                    day: 1,
                    hour: 0,
                    minute: 0,
                    second: 0,
                    nanosecond: 0,
                    ..dt
                })
            },
        }
    }
}

impl TickDuration {
    /// Room above the aligned instant for one more step of this interval.
    pub open spec fn add_ok(self, f: DateTime) -> bool {
        match self {
            TickDuration::Milliseconds(m) => f.rd_seconds() + m / 1000 + 1
                <= DateTime::max_rata_die() * 86400 + 86399,
            TickDuration::Seconds(s) => f.rd_seconds() + s <= DateTime::max_rata_die() * 86400
                + 86399,
            TickDuration::Minutes(m) => f.rd_seconds() + (m as int) * 60
                <= DateTime::max_rata_die() * 86400 + 86399,
            TickDuration::Hours(h) => f.rd_seconds() + (h as int) * 3600
                <= DateTime::max_rata_die() * 86400 + 86399,
            TickDuration::Days(d) => f.rata_die() + d <= DateTime::max_rata_die(),
            TickDuration::Weeks(_) => true,
            TickDuration::Months(m) => f.month_index() + m <= MAX_YEAR * 12 + 11,
            TickDuration::Years(y) => f.year + y <= MAX_YEAR,
        }
    }

    /// The whole second the millisecond floor lands on.
    pub open spec fn millis_floor_seconds(self, dt: DateTime) -> int {
        match self {
            TickDuration::Milliseconds(m) => (dt.rd_nanos() - rem_of_int(
                TickDuration::unix_millis(dt),
                m,
            ) * 1_000_000) / 1_000_000_000,
            _ => 0,
        }
    }

    /// The instant already lies on this interval's grid: flooring it moves
    /// nothing.
    pub open spec fn on_grid(self, dt: DateTime) -> bool {
        match self {
            TickDuration::Milliseconds(_) => dt.nanosecond == 0 && dt.rd_seconds()
                == self.millis_floor_seconds(dt),
            TickDuration::Weeks(_) => false,
            _ => self.floor_spec(dt) == dt,
        }
    }

    /// When `ceil` is free of panics on `dt`: `floor` must be, the magnitude
    /// must be positive, and there must be room for one step up.
    pub open spec fn ceil_ok(self, dt: DateTime) -> bool {
        &&& self.floor_ok(dt)
        &&& match self {
            TickDuration::Milliseconds(m) => m >= 1 && self.add_ok(
                DateTime {
                    year: 1,
                    month: 1,
                    day: 1,
                    hour: 0,
                    minute: 0,
                    second: 0,
                    nanosecond: 0,
                },
            ) && self.millis_floor_seconds(dt) + m / 1000 + 1 <= DateTime::max_rata_die() * 86400
                + 86399,
            TickDuration::Seconds(s) => s >= 1 && self.add_ok(self.floor_spec(dt)),
            TickDuration::Minutes(m) => m >= 1 && self.add_ok(self.floor_spec(dt)),
            TickDuration::Hours(h) => h >= 1 && self.add_ok(self.floor_spec(dt)),
            TickDuration::Days(d) => d >= 1 && self.add_ok(self.floor_spec(dt)),
            TickDuration::Weeks(_) => true,
            TickDuration::Months(m) => m >= 1 && self.add_ok(self.floor_spec(dt)),
            TickDuration::Years(y) => y >= 1 && self.add_ok(self.floor_spec(dt)),
        }
    }

    /// Rounds `dt` up to this interval's calendar grid: an instant already
    /// on the grid stays in place, any other moves to the grid point one
    /// whole interval above its floor.
    pub fn ceil(&self, date_time: &DateTime) -> (r: Result<DateTime, BuckyError>)
        requires
            self.ceil_ok(*date_time),
        ensures
            match r {
                Ok(c) => {
                    &&& !(self is Weeks)
                    &&& c.wf()
                    &&& if self.on_grid(*date_time) {
                        c == *date_time
                    } else {
                        match *self {
                        TickDuration::Milliseconds(m) => c.rd_nanos()
                            == self.millis_floor_seconds(*date_time) * 1_000_000_000 + m
                            * 1_000_000,
                        TickDuration::Seconds(s) => c.rd_seconds()
                            == self.floor_spec(*date_time).rd_seconds() + s && c.nanosecond == 0,
                        TickDuration::Minutes(m) => c.rd_seconds()
                            == self.floor_spec(*date_time).rd_seconds() + (m as int) * 60
                            && c.nanosecond == 0,
                        TickDuration::Hours(h) => c.rd_seconds()
                            == self.floor_spec(*date_time).rd_seconds() + (h as int) * 3600
                            && c.nanosecond == 0,
                        TickDuration::Days(d) => c.rata_die()
                            == self.floor_spec(*date_time).rata_die() + d && c.hour == 0
                            && c.minute == 0 && c.second == 0 && c.nanosecond == 0,
                        TickDuration::Weeks(_) => false,
                        TickDuration::Months(m) => c == self.floor_spec(
                            *date_time,
                        ).add_months_spec(m as int),
                        TickDuration::Years(y) => c == self.floor_spec(*date_time).add_years_spec(
                            y as int,
                        ),
                        }
                    }
                },
                Err(e) => self is Weeks && e == BuckyError::Unimplemented,
            },
    {
        let f = match self.floor(date_time) {
            Ok(f) => f,
            Err(e) => {
                return Err(e);
            },
        };
        if f == *date_time {
            return Ok(f);
        }
        proof {
            if self.on_grid(*date_time) {
                match *self {
                    TickDuration::Milliseconds(m) => {
                        crate::datetime::lemma_rd_injective(f, *date_time);
                    },
                    _ => {
                    },
                }
                assert(false);
            }
        }
        match *self {
            TickDuration::Milliseconds(m) => Ok(f.add_millis(m)),
            TickDuration::Seconds(s) => Ok(f.add_seconds(s)),
            TickDuration::Minutes(m) => Ok(f.add_seconds((m as i64) * 60)),
            TickDuration::Hours(h) => Ok(f.add_seconds((h as i64) * 3600)),
            TickDuration::Days(d) => Ok(f.add_days(d as i64)),
            TickDuration::Weeks(_) => Err(BuckyError::Unimplemented),
            TickDuration::Months(m) => Ok(f.add_months(m as i64)),
            TickDuration::Years(y) => Ok(f.add_years(y as i64)),
        }
    }
}

/// The truncating remainder on unbounded integers, matching `rem_of` when
/// the dividend fits a machine word.
pub open spec fn rem_of_int(a: int, b: i64) -> int {
    if i64::MIN <= a <= i64::MAX {
        rem_of(a as i64, b) as int
    } else {
        0
    }
}

/// The Unix epoch as a civil date-time.
pub open spec fn epoch() -> DateTime {
    DateTime { year: 1970, month: 1, day: 1, hour: 0, minute: 0, second: 0, nanosecond: 0 }
}

/// Builds the Unix epoch.
pub fn epoch_x() -> (r: DateTime)
    ensures
        r == epoch(),
        r.wf(),
{
    DateTime { year: 1970, month: 1, day: 1, hour: 0, minute: 0, second: 0, nanosecond: 0 }
}

/// For a negative dividend the truncating remainder is negative and bounded
/// by the dividend.
pub proof fn lemma_rem_neg(a: i64, b: i64)
    requires
        a < 0,
        b != 0,
        a != i64::MIN,
    ensures
        a <= rem_of(a, b) <= 0,
        b > 0 ==> -b < rem_of(a, b),
        b < 0 ==> b < rem_of(a, b),
        (a - rem_of(a, b)) % (if b > 0 {
            b as int
        } else {
            -b as int
        }) == 0,
{
    let d: int = if b > 0 {
        b as int
    } else {
        -b as int
    };
    vstd::arithmetic::div_mod::lemma_fundamental_div_mod(-a as int, d);
    vstd::arithmetic::div_mod::lemma_mod_bound(-a as int, d);
    assert((-a) % d <= -a) by {
        if (-a) % d > -a {
            vstd::arithmetic::div_mod::lemma_div_pos_is_pos(-a as int, d);
            vstd::arithmetic::div_mod::lemma_div_is_ordered(0, -a as int, d);
        }
    }
    assert((a - rem_of(a, b)) % d == 0) by {
        assert(a - rem_of(a, b) == -(d * ((-a as int) / d)));
        vstd::arithmetic::mul::lemma_mul_is_commutative(d, (-a as int) / d);
        vstd::arithmetic::mul::lemma_mul_unary_negation((-a as int) / d, d);
        vstd::arithmetic::div_mod::lemma_mod_multiples_basic(-((-a as int) / d), d);
    }
}

/// Zeroing the nanoseconds floors an instant to its whole second.
proof fn lemma_split_seconds(s: DateTime)
    requires
        0 <= s.nanosecond < 1_000_000_000,
    ensures
        s.rd_seconds() == s.rd_nanos() / 1_000_000_000,
{
    vstd::arithmetic::div_mod::lemma_fundamental_div_mod_converse(
        s.rd_nanos(),
        1_000_000_000,
        s.rd_seconds(),
        s.nanosecond as int,
    );
}

/// The month/day pair read off a day-of-year is a well-formed date of that
/// year.
pub proof fn lemma_ord_to_md_wf(y: int, m: int, o: int)
    requires
        1 <= m <= 12,
        1 <= o,
        days_before_month(y, m) + o <= year_len_int(y),
    ensures
        ({
            let (mm, dd) = ord_to_md(y, m, o);
            &&& 1 <= mm <= 12
            &&& 1 <= dd <= days_in_month(y, mm)
            &&& days_before_month(y, mm) + dd == days_before_month(y, m) + o
        }),
    decreases 13 - m,
{
    if m >= 12 || o <= days_in_month(y, m) {
        if m >= 12 && o > days_in_month(y, m) {
            crate::datetime::lemma_dbm_13(y);
        }
    } else {
        lemma_ord_to_md_wf(y, m + 1, o - days_in_month(y, m));
    }
}

/// `year_len` under its integer name, for use in this module's contracts.
pub open spec fn year_len_int(y: int) -> int {
    crate::datetime::year_len(y)
}

/// A non-negative value whose truncating remainder by `b` vanishes leaves
/// a zero remainder again.
proof fn lemma_rem_zero(a: i64, b: i64)
    requires
        b != 0,
        a != i64::MIN,
        (a as int) % (if b > 0 {
            b as int
        } else {
            -b as int
        }) == 0,
    ensures
        rem_of(a, b) == 0,
{
    let d: int = if b > 0 {
        b as int
    } else {
        -b as int
    };
    if a < 0 {
        assert((-a as int) % d == 0) by {
            vstd::arithmetic::div_mod::lemma_fundamental_div_mod(a as int, d);
            assert(-a as int == d * -((a as int) / d)) by {
                vstd::arithmetic::mul::lemma_mul_unary_negation(d, (a as int) / d);
            }
            vstd::arithmetic::mul::lemma_mul_is_commutative(d, -((a as int) / d));
            vstd::arithmetic::div_mod::lemma_mod_multiples_basic(-((a as int) / d), d);
        }
    }
}

/// Flooring is idempotent: rounding an already aligned instant down again
/// moves nothing. This holds for every calendar unit the flooring covers —
/// seconds, minutes, hours, days, months and years; every floored instant
/// lies on its interval's grid.
pub proof fn lemma_floor_idempotent(d: TickDuration, dt: DateTime)
    requires
        d.floor_ok(dt),
        !(d is Weeks),
        !(d is Milliseconds),
    ensures
        d.floor_ok(d.floor_spec(dt)),
        d.floor_spec(d.floor_spec(dt)) == d.floor_spec(dt),
        d.on_grid(d.floor_spec(dt)),
{
    match d {
        TickDuration::Seconds(k) => {
            lemma_rem_nonneg(dt.second, k);
            lemma_rem_zero((dt.second - rem_of(dt.second, k)) as i64, k);
        },
        TickDuration::Minutes(k) => {
            lemma_rem_nonneg(dt.minute, k as i64);
            lemma_rem_zero((dt.minute - rem_of(dt.minute, k as i64)) as i64, k as i64);
        },
        TickDuration::Hours(k) => {
            lemma_rem_nonneg(dt.hour, k as i64);
            lemma_rem_zero((dt.hour - rem_of(dt.hour, k as i64)) as i64, k as i64);
        },
        TickDuration::Months(k) => {
            lemma_rem_nonneg((dt.month - 1) as i64, k as i64);
            lemma_rem_zero(
                (dt.month - 1 - rem_of((dt.month - 1) as i64, k as i64)) as i64,
                k as i64,
            );
        },
        TickDuration::Years(k) => {
            lemma_rem_nonneg(dt.year, k as i64);
            lemma_rem_zero((dt.year - rem_of(dt.year, k as i64)) as i64, k as i64);
        },
        TickDuration::Days(k) => {
            let y = dt.year as int;
            let o = dt.ordinal_spec();
            crate::datetime::lemma_dbm_bounds(y, dt.month as int);
            lemma_rem_nonneg((o - 1) as i64, k as i64);
            let rem = rem_of((o - 1) as i64, k as i64);
            lemma_ord_to_md_wf(y, 1, o - rem);
            let f = d.floor_spec(dt);
            assert(f.ordinal_spec() == o - rem);
            lemma_rem_zero((o - rem - 1) as i64, k as i64);
            assert(d.floor_spec(f) == f);
        },
        _ => {
        },
    }
}

/// Flooring by a whole-second count of milliseconds is idempotent too: an
/// instant the millisecond floor has produced satisfies the floor's own
/// description of itself — it lies on the grid, so flooring it again moves
/// nothing.
pub proof fn lemma_millis_floor_idempotent(m: i64, dt: DateTime, r1: DateTime)
    requires
        dt.wf(),
        r1.wf(),
        m >= 1,
        m % 1000 == 0,
        r1.nanosecond == 0,
        r1.rd_seconds() == (dt.rd_nanos() - rem_of_int(TickDuration::unix_millis(dt), m)
            * 1_000_000) / 1_000_000_000,
    ensures
        TickDuration::Milliseconds(m).on_grid(r1),
{
    crate::datetime::lemma_dby_bounds(MAX_YEAR as int + 1);
    crate::datetime::lemma_rd_below_max(dt);
    crate::datetime::lemma_rd_below_max(r1);
    crate::datetime::lemma_rd_below_max(epoch());
    let ts = TickDuration::unix_millis(dt);
    let rem = rem_of_int(ts, m);
    let big = epoch().rd_seconds();
    assert(i64::MIN < ts <= i64::MAX);
    if ts >= 0 {
        lemma_rem_nonneg(ts as i64, m);
    } else {
        lemma_rem_neg(ts as i64, m);
    }
    let x = ts - rem;
    assert(x % (m as int) == 0);
    // a multiple of a whole-second count is itself whole seconds
    assert(x % 1000 == 0) by {
        vstd::arithmetic::div_mod::lemma_fundamental_div_mod(x, m as int);
        vstd::arithmetic::div_mod::lemma_fundamental_div_mod(m as int, 1000);
        assert(x == (1000 * (m as int / 1000)) * (x / (m as int)));
        vstd::arithmetic::mul::lemma_mul_is_associative(1000, m as int / 1000, x / (m as int));
        vstd::arithmetic::mul::lemma_mul_is_commutative(
            1000,
            (m as int / 1000) * (x / (m as int)),
        );
        vstd::arithmetic::div_mod::lemma_mod_multiples_basic(
            (m as int / 1000) * (x / (m as int)),
            1000,
        );
    }
    let xq = x / 1000;
    assert(x == 1000 * xq) by {
        vstd::arithmetic::div_mod::lemma_fundamental_div_mod(x, 1000);
    }
    // split the nanoseconds into whole milliseconds and the residue
    let a1 = dt.nanosecond as int / 1_000_000;
    let nr = dt.nanosecond as int % 1_000_000;
    vstd::arithmetic::div_mod::lemma_fundamental_div_mod(dt.nanosecond as int, 1_000_000);
    vstd::arithmetic::div_mod::lemma_mod_bound(dt.nanosecond as int, 1_000_000);
    assert(dt.rd_nanos() - rem * 1_000_000 == (xq + big) * 1_000_000_000 + nr) by {
        assert(ts == (dt.rd_seconds() - big) * 1000 + a1);
        assert(dt.rd_nanos() == dt.rd_seconds() * 1_000_000_000 + 1_000_000 * a1 + nr);
    }
    assert(r1.rd_seconds() == xq + big) by {
        vstd::arithmetic::div_mod::lemma_fundamental_div_mod_converse(
            dt.rd_nanos() - rem * 1_000_000,
            1_000_000_000,
            xq + big,
            nr,
        );
    }
    // the floored instant's own epoch milliseconds are the aligned count
    assert(TickDuration::unix_millis(r1) == x) by {
        assert(TickDuration::unix_millis(r1) == (xq + big - big) * 1000);
    }
    assert(rem_of_int(x, m) == 0) by {
        assert(i64::MIN < x <= i64::MAX);
        lemma_rem_zero(x as i64, m);
    }
    assert(TickDuration::Milliseconds(m).millis_floor_seconds(r1) == r1.rd_seconds()) by {
        assert(r1.rd_nanos() - 0 * 1_000_000 == r1.rd_seconds() * 1_000_000_000 + 0);
        vstd::arithmetic::div_mod::lemma_fundamental_div_mod_converse(
            r1.rd_nanos(),
            1_000_000_000,
            r1.rd_seconds(),
            0,
        );
    }
}

use crate::datetime::days_before_month;

} // verus!
