//! A civil (timezone-free) date-time of second fields plus nanoseconds, with
//! verified proleptic-Gregorian calendar arithmetic.
//!
//! Time scales and calendar-aware tick generation work on this type. Its
//! mathematical model is the rata-die day number (days since January 1 of
//! year 1) and the second/nanosecond count derived from it; every calendar
//! operation states exactly how it moves that count.

use vstd::prelude::*;

verus! {

/// Years this library's calendar arithmetic covers. Chart domains are
/// expected to stay within four-digit years; the extra headroom lets tick
/// rounding step past a domain edge without leaving the model.
pub const MAX_YEAR: i64 = 30000;

/// A civil date and time-of-day: no timezone, nanosecond resolution.
#[derive(Clone, Copy, Debug, PartialEq, Eq, Structural)]
pub struct DateTime {
    pub year: i64,
    pub month: i64,
    pub day: i64,
    pub hour: i64,
    pub minute: i64,
    pub second: i64,
    pub nanosecond: i64,
}

/// True on leap years of the proleptic Gregorian calendar.
pub open spec fn is_leap_year(y: int) -> bool {
    (y % 4 == 0 && y % 100 != 0) || y % 400 == 0
}

/// Days in month `m` of year `y` (1 = January).
pub open spec fn days_in_month(y: int, m: int) -> int {
    if m == 2 {
        if is_leap_year(y) {
            29
        } else {
            28
        }
    } else if m == 4 || m == 6 || m == 9 || m == 11 {
        30
    } else {
        31
    }
}

/// Days of year `y` that precede month `m`.
pub open spec fn days_before_month(y: int, m: int) -> int
    decreases m,
{
    if m <= 1 {
        0
    } else {
        days_before_month(y, m - 1) + days_in_month(y, m - 1)
    }
}

/// Days in year `y`.
pub open spec fn year_len(y: int) -> int {
    if is_leap_year(y) {
        366
    } else {
        365
    }
}

/// Days that precede year `y` counting from year 1.
pub open spec fn days_before_year(y: int) -> int
    decreases y,
{
    if y <= 1 {
        0
    } else {
        days_before_year(y - 1) + year_len(y - 1)
    }
}

impl DateTime {
    /// The fields form a real calendar date and time within the supported
    /// year span.
    pub open spec fn wf(self) -> bool {
        &&& 1 <= self.year <= MAX_YEAR
        &&& 1 <= self.month <= 12
        &&& 1 <= self.day <= days_in_month(self.year as int, self.month as int)
        &&& 0 <= self.hour < 24
        &&& 0 <= self.minute < 60
        &&& 0 <= self.second < 60
        &&& 0 <= self.nanosecond < 1_000_000_000
    }

    /// The day number of this date, with January 1 of year 1 as day zero.
    pub open spec fn rata_die(self) -> int {
        days_before_year(self.year as int) + days_before_month(
            self.year as int,
            self.month as int,
        ) + self.day - 1
    }

    /// Whole seconds since midnight of day zero.
    pub open spec fn rd_seconds(self) -> int {
        self.rata_die() * 86400 + self.hour * 3600 + self.minute * 60 + self.second
    }

    /// Nanoseconds since midnight of day zero: the total order on date-times.
    pub open spec fn rd_nanos(self) -> int {
        self.rd_seconds() * 1_000_000_000 + self.nanosecond
    }

    /// The last representable date-time's day number.
    pub open spec fn max_rata_die() -> int {
        days_before_year(MAX_YEAR as int + 1) - 1
    }

    /// Builds a date-time after validating the fields; `None` when they do
    /// not name a calendar instant this library covers.
    pub fn new(year: i64, month: i64, day: i64, hour: i64, minute: i64, second: i64) -> (r: Option<
        DateTime,
    >)
        ensures
            match r {
                Some(dt) => {
                    &&& dt.wf()
                    &&& dt == (DateTime {
                        year,
                        month,
                        day,
                        hour,
                        minute,
                        second,
                        nanosecond: 0,
                    })
                },
                None => !(DateTime { year, month, day, hour, minute, second, nanosecond: 0 }).wf(),
            },
    {
        let dt = DateTime { year, month, day, hour, minute, second, nanosecond: 0 };
        if dt.is_valid() {
            Some(dt)
        } else {
            None
        }
    }

    /// Runtime check of `wf`.
    pub fn is_valid(&self) -> (r: bool)
        ensures
            r == self.wf(),
    {
        1 <= self.year && self.year <= MAX_YEAR && 1 <= self.month && self.month <= 12 && 1
            <= self.day && self.day <= days_in_month_x(self.year, self.month) && 0 <= self.hour
            && self.hour < 24 && 0 <= self.minute && self.minute < 60 && 0 <= self.second
            && self.second < 60 && 0 <= self.nanosecond && self.nanosecond < 1_000_000_000
    }

    /// Day-of-year of this date, starting at 1 for January 1.
    pub open spec fn ordinal_spec(self) -> int {
        days_before_month(self.year as int, self.month as int) + self.day
    }

    /// Computes the day-of-year.
    pub fn ordinal(&self) -> (r: i64)
        requires
            self.wf(),
        ensures
            r == self.ordinal_spec(),
            1 <= r <= 366,
    {
        proof {
            lemma_dbm_bounds(self.year as int, self.month as int);
        }
        days_before_month_x(self.year, self.month) + self.day
    }

    /// Computes the rata-die day number.
    pub fn rata_die_x(&self) -> (r: i64)
        requires
            self.wf(),
        ensures
            r == self.rata_die(),
            0 <= r <= DateTime::max_rata_die(),
    {
        proof {
            lemma_dbm_bounds(self.year as int, self.month as int);
            lemma_dby_bounds(self.year as int);
            lemma_rd_below_max(*self);
        }
        days_before_year_x(self.year) + days_before_month_x(self.year, self.month) + self.day - 1
    }

    /// Computes whole seconds since midnight of day zero.
    pub fn rd_seconds_x(&self) -> (r: i64)
        requires
            self.wf(),
        ensures
            r == self.rd_seconds(),
            0 <= r,
    {
        proof {
            lemma_dby_bounds(MAX_YEAR as int + 1);
        }
        self.rata_die_x() * 86400 + self.hour * 3600 + self.minute * 60 + self.second
    }

    /// True when `self` is at or before `other` on the time line.
    pub fn before_eq(&self, other: &DateTime) -> (r: bool)
        requires
            self.wf(),
            other.wf(),
        ensures
            r == (self.rd_nanos() <= other.rd_nanos()),
    {
        let a = self.rd_seconds_x();
        let b = other.rd_seconds_x();
        if a < b {
            true
        } else if a == b {
            self.nanosecond <= other.nanosecond
        } else {
            false
        }
    }
}

/// Executable twin of `days_in_month`.
pub fn days_in_month_x(y: i64, m: i64) -> (r: i64)
    ensures
        r == days_in_month(y as int, m as int),
        28 <= r <= 31,
{
    if m == 2 {
        if (y % 4 == 0 && y % 100 != 0) || y % 400 == 0 {
            29
        } else {
            28
        }
    } else if m == 4 || m == 6 || m == 9 || m == 11 {
        30
    } else {
        31
    }
}

/// Executable twin of `days_before_month`.
pub fn days_before_month_x(y: i64, m: i64) -> (r: i64)
    requires
        1 <= m <= 13,
    ensures
        r == days_before_month(y as int, m as int),
        0 <= r <= 31 * (m - 1),
{
    let mut acc: i64 = 0;
    let mut i: i64 = 1;
    while i < m
        invariant
            1 <= i <= m,
            m <= 13,
            acc == days_before_month(y as int, i as int),
            0 <= acc <= 31 * (i - 1),
        decreases m - i,
    {
        acc = acc + days_in_month_x(y, i);
        i = i + 1;
    }
    acc
}

/// Executable twin of `year_len`.
pub fn year_len_x(y: i64) -> (r: i64)
    ensures
        r == year_len(y as int),
{
    if (y % 4 == 0 && y % 100 != 0) || y % 400 == 0 {
        366
    } else {
        365
    }
}

/// Executable twin of `days_before_year`.
pub fn days_before_year_x(y: i64) -> (r: i64)
    requires
        1 <= y <= MAX_YEAR + 1,
    ensures
        r == days_before_year(y as int),
        0 <= r <= 366 * (y - 1),
{
    let mut acc: i64 = 0;
    let mut i: i64 = 1;
    while i < y
        invariant
            1 <= i <= y,
            y <= MAX_YEAR + 1,
            acc == days_before_year(i as int),
            0 <= acc <= 366 * (i - 1),
        decreases y - i,
    {
        acc = acc + year_len_x(i);
        i = i + 1;
    }
    acc
}

/// A month's days all fit before the year ends: the day-of-year index stays
/// below the year's length.
pub proof fn lemma_dbm_bounds(y: int, m: int)
    requires
        1 <= m <= 12,
    ensures
        0 <= days_before_month(y, m),
        days_before_month(y, m) + days_in_month(y, m) <= year_len(y),
    decreases 13 - m,
{
    if m == 12 {
        assert(days_before_month(y, 12) + days_in_month(y, 12) == days_before_month(y, 13));
        lemma_dbm_13(y);
    } else {
        lemma_dbm_bounds(y, m + 1);
    }
    if m > 1 {
        lemma_dbm_bounds_low(y, m);
    }
}

/// `days_before_month` is non-negative.
proof fn lemma_dbm_bounds_low(y: int, m: int)
    requires
        1 <= m,
    ensures
        0 <= days_before_month(y, m),
    decreases m,
{
    if m > 1 {
        lemma_dbm_bounds_low(y, m - 1);
    }
}

/// Summing all twelve months gives the year's length.
pub proof fn lemma_dbm_13(y: int)
    ensures
        days_before_month(y, 13) == year_len(y),
{
    reveal_with_fuel(days_before_month, 14);
}

/// `days_before_month` grows with the month, by at least the month's length.
pub proof fn lemma_dbm_monotone(y: int, m1: int, m2: int)
    requires
        1 <= m1 < m2 <= 13,
    ensures
        days_before_month(y, m1) + days_in_month(y, m1) <= days_before_month(y, m2),
    decreases m2 - m1,
{
    if m2 == m1 + 1 {
    } else {
        lemma_dbm_monotone(y, m1, m2 - 1);
    }
}

/// `days_before_year` grows with the year, by at least 365 days a year.
pub proof fn lemma_dby_monotone(y1: int, y2: int)
    requires
        y1 <= y2,
        1 <= y1,
    ensures
        days_before_year(y1) <= days_before_year(y2),
        days_before_year(y1) + 365 * (y2 - y1) <= days_before_year(y2),
    decreases y2 - y1,
{
    if y1 < y2 {
        lemma_dby_monotone(y1, y2 - 1);
    }
}

/// `days_before_year` is bounded by 366 days a year.
pub proof fn lemma_dby_bounds(y: int)
    requires
        1 <= y,
    ensures
        0 <= days_before_year(y) <= 366 * (y - 1),
    decreases y,
{
    if y > 1 {
        lemma_dby_bounds(y - 1);
    }
}

/// A well-formed date's day number stays at or below the last supported day.
pub proof fn lemma_rd_below_max(dt: DateTime)
    requires
        dt.wf(),
    ensures
        0 <= dt.rata_die() <= DateTime::max_rata_die(),
{
    lemma_dbm_bounds(dt.year as int, dt.month as int);
    lemma_dby_bounds(dt.year as int);
    lemma_dbm_13(dt.year as int);
    lemma_dbm_monotone(dt.year as int, dt.month as int, 13);
    // dt.rata_die() < days_before_year(dt.year) + year_len(dt.year) == days_before_year(dt.year + 1)
    assert(days_before_year(dt.year as int) + year_len(dt.year as int) == days_before_year(
        dt.year as int + 1,
    ));
    lemma_dby_monotone(dt.year as int + 1, MAX_YEAR as int + 1);
}

/// The time line determines the fields: two well-formed date-times at the
/// same nanosecond position are the same date-time.
pub proof fn lemma_rd_injective(a: DateTime, b: DateTime)
    requires
        a.wf(),
        b.wf(),
        a.rd_nanos() == b.rd_nanos(),
    ensures
        a == b,
{
    assert(a.rd_seconds() == b.rd_seconds() && a.nanosecond == b.nanosecond) by {
        assert(a.rd_seconds() * 1_000_000_000 + a.nanosecond == b.rd_seconds() * 1_000_000_000
            + b.nanosecond);
    }
    assert(a.rata_die() == b.rata_die()) by {
        assert(a.rata_die() * 86400 + (a.hour * 3600 + a.minute * 60 + a.second) == b.rata_die()
            * 86400 + (b.hour * 3600 + b.minute * 60 + b.second));
    }
    assert(a.year == b.year && a.month == b.month) by {
        if a.year < b.year || (a.year == b.year && a.month < b.month) {
            lemma_date_order(a, b);
        }
        if b.year < a.year || (b.year == a.year && b.month < a.month) {
            lemma_date_order(b, a);
        }
    }
    assert(a.day == b.day);
    assert(a.hour == b.hour && a.minute == b.minute && a.second == b.second) by {
        assert(a.hour * 3600 + a.minute * 60 + a.second == b.hour * 3600 + b.minute * 60
            + b.second);
    }
}

/// The day number respects the (year, month, day) order: an earlier year, or
/// an earlier month of the same year, means a strictly smaller day number.
pub proof fn lemma_date_order(a: DateTime, b: DateTime)
    requires
        a.wf(),
        b.wf(),
        a.year < b.year || (a.year == b.year && a.month < b.month),
    ensures
        a.rata_die() < b.rata_die(),
{
    lemma_dbm_bounds(a.year as int, a.month as int);
    lemma_dbm_bounds(b.year as int, b.month as int);
    if a.year == b.year {
        lemma_dbm_monotone(a.year as int, a.month as int, b.month as int);
    } else {
        lemma_dbm_13(a.year as int);
        lemma_dbm_monotone(a.year as int, a.month as int, 13);
        assert(days_before_year(a.year as int) + year_len(a.year as int) == days_before_year(
            a.year as int + 1,
        ));
        lemma_dby_monotone(a.year as int + 1, b.year as int);
    }
}

impl DateTime {
    /// The day after, keeping the time of day.
    pub fn next_day(&self) -> (r: DateTime)
        requires
            self.wf(),
            !(self.year == MAX_YEAR && self.month == 12 && self.day == 31),
        ensures
            r.wf(),
            r.rata_die() == self.rata_die() + 1,
            r.hour == self.hour,
            r.minute == self.minute,
            r.second == self.second,
            r.nanosecond == self.nanosecond,
    {
        if self.day < days_in_month_x(self.year, self.month) {
            DateTime { day: self.day + 1, ..*self }
        } else if self.month < 12 {
            DateTime { month: self.month + 1, day: 1, ..*self }
        } else {
            proof {
                lemma_dbm_13(self.year as int);
            }
            DateTime { year: self.year + 1, month: 1, day: 1, ..*self }
        }
    }

    /// The day before, keeping the time of day.
    pub fn prev_day(&self) -> (r: DateTime)
        requires
            self.wf(),
            !(self.year == 1 && self.month == 1 && self.day == 1),
        ensures
            r.wf(),
            r.rata_die() == self.rata_die() - 1,
            r.hour == self.hour,
            r.minute == self.minute,
            r.second == self.second,
            r.nanosecond == self.nanosecond,
    {
        if self.day > 1 {
            DateTime { day: self.day - 1, ..*self }
        } else if self.month > 1 {
            let m = self.month - 1;
            DateTime { month: m, day: days_in_month_x(self.year, m), ..*self }
        } else {
            proof {
                lemma_dbm_13(self.year as int - 1);
            }
            let y = self.year - 1;
            DateTime { year: y, month: 12, day: 31, ..*self }
        }
    }

    /// Moves `days` days forward, keeping the time of day.
    pub fn add_days(&self, days: i64) -> (r: DateTime)
        requires
            self.wf(),
            days >= 0,
            self.rata_die() + days <= DateTime::max_rata_die(),
        ensures
            r.wf(),
            r.rata_die() == self.rata_die() + days,
            r.hour == self.hour,
            r.minute == self.minute,
            r.second == self.second,
            r.nanosecond == self.nanosecond,
    {
        let mut cur = *self;
        let mut i: i64 = 0;
        while i < days
            invariant
                0 <= i <= days,
                cur.wf(),
                cur.rata_die() == self.rata_die() + i,
                self.rata_die() + days <= DateTime::max_rata_die(),
                cur.hour == self.hour,
                cur.minute == self.minute,
                cur.second == self.second,
                cur.nanosecond == self.nanosecond,
            decreases days - i,
        {
            proof {
                let last = DateTime {
                    year: MAX_YEAR,
                    month: 12,
                    day: 31,
                    hour: cur.hour,
                    minute: cur.minute,
                    second: cur.second,
                    nanosecond: cur.nanosecond,
                };
                if cur.year == MAX_YEAR && cur.month == 12 && cur.day == 31 {
                    assert(cur.rata_die() == DateTime::max_rata_die()) by {
                        lemma_dbm_13(MAX_YEAR as int);
                        lemma_dbm_monotone(MAX_YEAR as int, 12, 13);
                        assert(days_before_year(MAX_YEAR as int) + year_len(MAX_YEAR as int)
                            == days_before_year(MAX_YEAR as int + 1));
                    }
                }
            }
            cur = cur.next_day();
            i = i + 1;
        }
        cur
    }

    /// Moves `days` days backward, keeping the time of day.
    pub fn sub_days(&self, days: i64) -> (r: DateTime)
        requires
            self.wf(),
            days >= 0,
            self.rata_die() - days >= 0,
        ensures
            r.wf(),
            r.rata_die() == self.rata_die() - days,
            r.hour == self.hour,
            r.minute == self.minute,
            r.second == self.second,
            r.nanosecond == self.nanosecond,
    {
        let mut cur = *self;
        let mut i: i64 = 0;
        while i < days
            invariant
                0 <= i <= days,
                cur.wf(),
                cur.rata_die() == self.rata_die() - i,
                self.rata_die() - days >= 0,
                cur.hour == self.hour,
                cur.minute == self.minute,
                cur.second == self.second,
                cur.nanosecond == self.nanosecond,
            decreases days - i,
        {
            proof {
                if cur.year == 1 && cur.month == 1 && cur.day == 1 {
                    assert(cur.rata_die() == 0);
                }
            }
            cur = cur.prev_day();
            i = i + 1;
        }
        cur
    }
}


impl DateTime {
    /// Moves `k` whole seconds forward, keeping the nanosecond part.
    pub fn add_seconds(&self, k: i64) -> (r: DateTime)
        requires
            self.wf(),
            k >= 0,
            self.rd_seconds() + k <= DateTime::max_rata_die() * 86400 + 86399,
        ensures
            r.wf(),
            r.rd_seconds() == self.rd_seconds() + k,
            r.nanosecond == self.nanosecond,
    {
        proof {
            lemma_dby_bounds(MAX_YEAR as int + 1);
            lemma_rd_below_max(*self);
        }
        let sod: i64 = self.hour * 3600 + self.minute * 60 + self.second;
        let total: i64 = sod + k;
        let days: i64 = total / 86400;
        let rem: i64 = total % 86400;
        let base = DateTime {
            hour: rem / 3600,
            minute: (rem % 3600) / 60,
            second: rem % 60,
            ..*self
        };
        proof {
            assert(total == days * 86400 + rem && 0 <= rem < 86400);
            assert(rem == (rem / 3600) * 3600 + rem % 3600 && 0 <= rem % 3600 < 3600);
            assert(rem % 3600 == ((rem % 3600) / 60) * 60 + (rem % 3600) % 60);
            assert(rem % 60 == (rem % 3600) % 60) by (nonlinear_arith);
            assert(base.rd_seconds() == self.rata_die() * 86400 + rem);
            lemma_rd_below_max(*self);
            assert(self.rata_die() + days <= DateTime::max_rata_die());
        }
        let r = base.add_days(days);
        proof {
            assert(r.rd_seconds() == (self.rata_die() + days) * 86400 + rem);
        }
        r
    }

    /// Moves `k` whole milliseconds forward.
    pub fn add_millis(&self, k: i64) -> (r: DateTime)
        requires
            self.wf(),
            k >= 0,
            self.rd_seconds() + k / 1000 + 1 <= DateTime::max_rata_die() * 86400 + 86399,
        ensures
            r.wf(),
            r.rd_nanos() == self.rd_nanos() + k * 1_000_000,
    {
        let ms: i64 = k % 1000;
        let mut secs: i64 = k / 1000;
        let mut ns: i64 = self.nanosecond + ms * 1_000_000;
        if ns >= 1_000_000_000 {
            ns = ns - 1_000_000_000;
            secs = secs + 1;
        }
        let base = DateTime { nanosecond: ns, ..*self };
        proof {
            assert(k == (k / 1000) * 1000 + k % 1000 && 0 <= k % 1000 < 1000);
        }
        let r = base.add_seconds(secs);
        r
    }

    /// Moves `k` whole milliseconds backward.
    pub fn sub_millis(&self, k: i64) -> (r: DateTime)
        requires
            self.wf(),
            k >= 0,
            self.rd_nanos() - k * 1_000_000 >= 0,
        ensures
            r.wf(),
            r.rd_nanos() == self.rd_nanos() - k * 1_000_000,
    {
        let k_days: i64 = k / 86_400_000;
        let k_ms: i64 = k % 86_400_000;
        let ns_of_day: i64 = (self.hour * 3600 + self.minute * 60 + self.second) * 1_000_000_000
            + self.nanosecond;
        let sub_ns: i64 = k_ms * 1_000_000;
        let mut borrow: i64 = 0;
        let mut new_nsod: i64 = 0;
        if ns_of_day >= sub_ns {
            new_nsod = ns_of_day - sub_ns;
        } else {
            new_nsod = ns_of_day + 86_400_000_000_000 - sub_ns;
            borrow = 1;
        }
        let s_tot: i64 = new_nsod / 1_000_000_000;
        let ns: i64 = new_nsod % 1_000_000_000;
        let base = DateTime {
            hour: s_tot / 3600,
            minute: (s_tot % 3600) / 60,
            second: s_tot % 60,
            nanosecond: ns,
            ..*self
        };
        proof {
            assert(k == k_days * 86_400_000 + k_ms && 0 <= k_ms < 86_400_000);
            assert(new_nsod == s_tot * 1_000_000_000 + ns && 0 <= ns < 1_000_000_000);
            assert(s_tot == (s_tot / 3600) * 3600 + s_tot % 3600 && 0 <= s_tot % 3600 < 3600);
            assert(s_tot % 3600 == ((s_tot % 3600) / 60) * 60 + (s_tot % 3600) % 60);
            assert(s_tot % 60 == (s_tot % 3600) % 60) by (nonlinear_arith);
            assert(0 <= s_tot < 86400);
            assert(base.rd_nanos() == self.rata_die() * 86_400_000_000_000 + (new_nsod as int));
            // room below: the day number stays non-negative
            assert(self.rd_nanos() == self.rata_die() * 86_400_000_000_000 + ns_of_day);
            assert(k * 1_000_000 == k_days * 86_400_000_000_000 + sub_ns);
            assert(self.rata_die() * 86_400_000_000_000 >= k_days * 86_400_000_000_000 + sub_ns
                - ns_of_day);
            if borrow == 1 {
                assert(self.rata_die() * 86_400_000_000_000 > k_days * 86_400_000_000_000);
                assert(self.rata_die() > k_days);
            } else {
                assert(self.rata_die() * 86_400_000_000_000 > (k_days - 1) * 86_400_000_000_000);
                assert(self.rata_die() > k_days - 1);
            }
            assert(self.rata_die() - (k_days + borrow) >= 0);
        }
        let r = base.sub_days(k_days + borrow);
        r
    }

    /// The month index counted from year zero: `year * 12 + (month - 1)`.
    pub open spec fn month_index(self) -> int {
        self.year * 12 + self.month - 1
    }

    /// What `add_months` returns: the month index moves forward by `k` and
    /// the day of month is clamped into the target month, as calendar
    /// month addition does.
    pub open spec fn add_months_spec(self, k: int) -> DateTime {
        let idx = self.month_index() + k;
        let y = idx / 12;
        let m = idx % 12 + 1;
        let d = if self.day <= days_in_month(y, m) {
            self.day as int
        } else {
            days_in_month(y, m)
        };
        DateTime {
            year: y as i64,
            month: m as i64,
            day: d as i64,
            ..self
        }
    }

    /// Moves `k` calendar months forward, clamping the day of month.
    pub fn add_months(&self, k: i64) -> (r: DateTime)
        requires
            self.wf(),
            k >= 0,
            self.month_index() + k <= MAX_YEAR * 12 + 11,
        ensures
            r.wf(),
            r == self.add_months_spec(k as int),
            r.rd_nanos() >= self.rd_nanos(),
            k >= 1 ==> r.rd_nanos() > self.rd_nanos(),
    {
        let idx: i64 = self.year * 12 + (self.month - 1) + k;
        let y: i64 = idx / 12;
        let m: i64 = idx % 12 + 1;
        let dim: i64 = days_in_month_x(y, m);
        let d: i64 = if self.day <= dim {
            self.day
        } else {
            dim
        };
        let r = DateTime { year: y, month: m, day: d, ..*self };
        proof {
            assert(idx == y * 12 + (m - 1) && 0 <= idx % 12 < 12);
            assert(y >= self.year);
            if k >= 1 {
                if y == self.year {
                    assert(m > self.month);
                }
                lemma_date_order(*self, r);
                lemma_rd_grows(*self, r);
            }
            if k == 0 {
                assert(y == self.year && m == self.month && d == self.day) by {
                    assert(idx == self.year * 12 + (self.month - 1));
                };
            }
        }
        r
    }

    /// What `add_years` returns: the year moves forward by `k` and February
    /// 29 is clamped to February 28 off leap years.
    pub open spec fn add_years_spec(self, k: int) -> DateTime {
        let y = self.year + k;
        let d = if self.day <= days_in_month(y, self.month as int) {
            self.day as int
        } else {
            days_in_month(y, self.month as int)
        };
        DateTime { year: y as i64, day: d as i64, ..self }
    }

    /// Moves `k` calendar years forward, clamping February 29.
    pub fn add_years(&self, k: i64) -> (r: DateTime)
        requires
            self.wf(),
            k >= 0,
            self.year + k <= MAX_YEAR,
        ensures
            r.wf(),
            r == self.add_years_spec(k as int),
            r.rd_nanos() >= self.rd_nanos(),
            k >= 1 ==> r.rd_nanos() > self.rd_nanos(),
    {
        let y: i64 = self.year + k;
        let dim: i64 = days_in_month_x(y, self.month);
        let d: i64 = if self.day <= dim {
            self.day
        } else {
            dim
        };
        let r = DateTime { year: y, day: d, ..*self };
        proof {
            if k >= 1 {
                lemma_date_order(*self, r);
                lemma_rd_grows(*self, r);
            }
        }
        r
    }
}

/// A strictly larger day number with equal time-of-day fields means a
/// strictly larger position on the time line.
pub proof fn lemma_rd_grows(a: DateTime, b: DateTime)
    requires
        a.rata_die() < b.rata_die(),
        a.hour == b.hour,
        a.minute == b.minute,
        a.second == b.second,
        a.nanosecond == b.nanosecond,
        a.wf(),
        b.wf(),
    ensures
        a.rd_nanos() < b.rd_nanos(),
{
}

} // verus!
