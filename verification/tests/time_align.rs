use bucky::array::ticks::time_duration::TickDuration;
use bucky::datetime::DateTime;
use chrono::{Datelike, Timelike};

const RFC_3339_FMT: &str = "%Y-%m-%dT%H:%M:%S";

fn dt(s: &str) -> DateTime {
    let n = chrono::NaiveDateTime::parse_from_str(s, RFC_3339_FMT).unwrap();
    DateTime::new(
        n.year() as i64,
        n.month() as i64,
        n.day() as i64,
        n.hour() as i64,
        n.minute() as i64,
        n.second() as i64,
    )
    .unwrap()
}

#[test]
fn tick_duration_floor_1() {
    let input_date_time = dt("2000-01-01T00:00:08");
    let output_date_time = dt("2000-01-01T00:00:08");
    assert_eq!(
        output_date_time,
        TickDuration::Seconds(1).floor(&input_date_time).unwrap()
    );
}

#[test]
fn tick_duration_floor_2() {
    let input_date_time = dt("2000-01-01T00:00:08");
    let output_date_time = dt("2000-01-01T00:00:05");
    assert_eq!(
        output_date_time,
        TickDuration::Seconds(5).floor(&input_date_time).unwrap()
    );
}

#[test]
fn tick_duration_floor_3() {
    let input_date_time = dt("2000-01-01T00:00:08");
    let output_date_time = dt("2000-01-01T00:00:00");
    assert_eq!(
        output_date_time,
        TickDuration::Minutes(1).floor(&input_date_time).unwrap()
    );
}

#[test]
fn tick_duration_floor_4() {
    let input_date_time = dt("2000-01-01T00:08:08");
    let output_date_time = dt("2000-01-01T00:05:00");
    assert_eq!(
        output_date_time,
        TickDuration::Minutes(5).floor(&input_date_time).unwrap()
    );
}

#[test]
fn tick_duration_floor_6() {
    let input_date_time = dt("2000-02-24T00:08:08");
    let output_date_time = dt("2000-01-01T00:00:00");
    assert_eq!(
        output_date_time,
        TickDuration::Months(3).floor(&input_date_time).unwrap()
    );
}

#[test]
fn tick_duration_floor_7() {
    let input_date_time = dt("2000-02-24T00:08:08");
    let output_date_time = dt("2000-02-01T00:00:00");
    assert_eq!(
        output_date_time,
        TickDuration::Months(1).floor(&input_date_time).unwrap()
    );
}

#[test]
fn tick_duration_floor_8() {
    let input_date_time = dt("2000-02-24T00:08:08");
    let output_date_time = dt("2000-02-24T00:00:00");
    assert_eq!(
        output_date_time,
        TickDuration::Hours(1).floor(&input_date_time).unwrap()
    );
}

#[test]
fn tick_duration_floor_9() {
    let input_date_time = dt("2000-02-24T04:08:08");
    let output_date_time = dt("2000-02-24T04:00:00");
    assert_eq!(
        output_date_time,
        TickDuration::Hours(1).floor(&input_date_time).unwrap()
    );
}

#[test]
fn tick_duration_floor_10() {
    let input_date_time = dt("2000-02-24T05:08:08");
    let output_date_time = dt("2000-02-24T03:00:00");
    assert_eq!(
        output_date_time,
        TickDuration::Hours(3).floor(&input_date_time).unwrap()
    );
}

#[test]
fn tick_duration_ceil_1() {
    let input_date_time = dt("2000-01-01T00:00:08");
    let output_date_time = dt("2000-01-01T00:00:08");
    assert_eq!(
        output_date_time,
        TickDuration::Seconds(1).ceil(&input_date_time).unwrap()
    );
}

#[test]
fn tick_duration_ceil_2() {
    let input_date_time = dt("2000-01-01T00:00:08");
    let output_date_time = dt("2000-01-01T00:00:10");
    assert_eq!(
        output_date_time,
        TickDuration::Seconds(5).ceil(&input_date_time).unwrap()
    );
}

#[test]
fn tick_duration_ceil_3() {
    let input_date_time = dt("2000-01-01T00:00:08");
    let output_date_time = dt("2000-01-01T00:01:00");
    assert_eq!(
        output_date_time,
        TickDuration::Minutes(1).ceil(&input_date_time).unwrap()
    );
}

#[test]
fn tick_duration_ceil_4() {
    let input_date_time = dt("2000-01-01T00:08:08");
    let output_date_time = dt("2000-01-01T00:10:00");
    assert_eq!(
        output_date_time,
        TickDuration::Minutes(5).ceil(&input_date_time).unwrap()
    );
}

#[test]
fn tick_duration_ceil_6() {
    let input_date_time = dt("2000-02-24T00:08:08");
    let output_date_time = dt("2000-04-01T00:00:00");
    assert_eq!(
        output_date_time,
        TickDuration::Months(3).ceil(&input_date_time).unwrap()
    );
}

#[test]
fn tick_duration_ceil_7() {
    let input_date_time = dt("2000-02-24T00:08:08");
    let output_date_time = dt("2000-03-01T00:00:00");
    assert_eq!(
        output_date_time,
        TickDuration::Months(1).ceil(&input_date_time).unwrap()
    );
}

#[test]
fn tick_duration_ceil_8() {
    let input_date_time = dt("2000-02-24T00:08:08");
    let output_date_time = dt("2000-02-24T01:00:00");
    assert_eq!(
        output_date_time,
        TickDuration::Hours(1).ceil(&input_date_time).unwrap()
    );
}

#[test]
fn tick_duration_ceil_9() {
    let input_date_time = dt("2000-02-24T04:08:08");
    let output_date_time = dt("2000-02-24T05:00:00");
    assert_eq!(
        output_date_time,
        TickDuration::Hours(1).ceil(&input_date_time).unwrap()
    );
}

#[test]
fn tick_duration_ceil_10() {
    let input_date_time = dt("2000-02-24T05:08:08");
    let output_date_time = dt("2000-02-24T06:00:00");
    assert_eq!(
        output_date_time,
        TickDuration::Hours(3).ceil(&input_date_time).unwrap()
    );
}

#[test]
fn tick_duration_floor_weekly_is_a_loud_gap() {
    let input_date_time = dt("2000-01-01T00:08:08");
    assert_eq!(
        TickDuration::Weeks(5).floor(&input_date_time),
        Err(bucky::error::BuckyError::Unimplemented)
    );
}

#[test]
fn tick_duration_floor_milliseconds() {
    let input_date_time = dt("2000-01-01T00:00:08");
    let output_date_time = dt("2000-01-01T00:00:05");
    assert_eq!(
        output_date_time,
        TickDuration::Milliseconds(5000).floor(&input_date_time).unwrap()
    );
}

#[test]
fn tick_duration_floor_days() {
    let input_date_time = dt("2000-03-05T07:08:09");
    // day-of-year 65 is on the two-day grid anchored at January 1
    let output_date_time = dt("2000-03-05T00:00:00");
    assert_eq!(
        output_date_time,
        TickDuration::Days(2).floor(&input_date_time).unwrap()
    );
}

#[test]
fn tick_duration_floor_is_idempotent_on_hours() {
    let input_date_time = dt("2000-02-24T05:08:08");
    let once = TickDuration::Hours(3).floor(&input_date_time).unwrap();
    let twice = TickDuration::Hours(3).floor(&once).unwrap();
    assert_eq!(once, twice);
}

#[test]
fn tick_duration_ordering_is_by_approximate_seconds() {
    assert!(TickDuration::Seconds(60) == TickDuration::Minutes(1));
    assert!(TickDuration::Days(30) == TickDuration::Months(1));
    assert!(TickDuration::Hours(1) < TickDuration::Hours(3));
    assert!(TickDuration::Weeks(1) < TickDuration::Months(1));
}

#[test]
fn datetime_rejects_impossible_dates() {
    assert!(DateTime::new(2001, 2, 29, 0, 0, 0).is_none());
    assert!(DateTime::new(2000, 2, 29, 0, 0, 0).is_some());
    assert!(DateTime::new(2000, 13, 1, 0, 0, 0).is_none());
    assert!(DateTime::new(2000, 1, 1, 24, 0, 0).is_none());
}

#[test]
fn datetime_month_add_clamps_the_day() {
    let d = DateTime::new(2000, 1, 31, 12, 0, 0).unwrap();
    assert_eq!(d.add_months(1), DateTime::new(2000, 2, 29, 12, 0, 0).unwrap());
    let e = DateTime::new(2000, 2, 29, 0, 0, 0).unwrap();
    assert_eq!(e.add_years(1), DateTime::new(2001, 2, 28, 0, 0, 0).unwrap());
}

#[test]
fn century_years_follow_the_gregorian_leap_rule() {
    assert!(DateTime::new(1900, 2, 29, 0, 0, 0).is_none());
    assert!(DateTime::new(2000, 2, 29, 0, 0, 0).is_some());
    assert!(DateTime::new(2100, 2, 29, 0, 0, 0).is_none());
    assert!(DateTime::new(2004, 2, 29, 0, 0, 0).is_some());
}

#[test]
fn day_arithmetic_crosses_month_and_year_edges() {
    let d = DateTime::new(1999, 12, 31, 23, 59, 59).unwrap();
    assert_eq!(d.add_days(1), DateTime::new(2000, 1, 1, 23, 59, 59).unwrap());
    assert_eq!(d.add_seconds(1), DateTime::new(2000, 1, 1, 0, 0, 0).unwrap());
    let e = DateTime::new(2000, 2, 28, 0, 0, 0).unwrap();
    assert_eq!(e.add_days(2), DateTime::new(2000, 3, 1, 0, 0, 0).unwrap());
}

#[test]
fn tick_duration_ceil_leaves_grid_points_in_place() {
    let on_hour = dt("2000-02-24T03:00:00");
    assert_eq!(on_hour, TickDuration::Hours(3).ceil(&on_hour).unwrap());
    let on_month = dt("2000-04-01T00:00:00");
    assert_eq!(on_month, TickDuration::Months(3).ceil(&on_month).unwrap());
    let on_second = dt("2000-01-01T00:00:05");
    assert_eq!(
        on_second,
        TickDuration::Milliseconds(5000).ceil(&on_second).unwrap()
    );
}

#[test]
fn tick_duration_floor_is_idempotent_on_days() {
    let input_date_time = dt("2000-01-03T07:08:09");
    let once = TickDuration::Days(7).floor(&input_date_time).unwrap();
    let twice = TickDuration::Days(7).floor(&once).unwrap();
    assert_eq!(once, twice);
    assert_eq!(once.year, 2000);
}

#[test]
fn tick_duration_floor_months_lands_on_midnight() {
    let input_date_time = dt("2000-02-24T05:08:08");
    let output_date_time = dt("2000-02-01T00:00:00");
    assert_eq!(
        output_date_time,
        TickDuration::Months(1).floor(&input_date_time).unwrap()
    );
}
