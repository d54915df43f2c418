use bucky::array::ticks::time_duration::TickDuration;
use bucky::array::ticks::TickIncrement;
use bucky::datetime::DateTime;

fn dt(y: i64, mo: i64, d: i64, h: i64, mi: i64, s: i64) -> DateTime {
    DateTime::new(y, mo, d, h, mi, s).unwrap()
}

#[test]
fn four_seconds_at_four_ticks_step_by_one_second() {
    let d0 = dt(2011, 1, 1, 12, 0, 0);
    let d1 = dt(2011, 1, 1, 12, 0, 4);
    let incr = (d0..d1).tick_increment(4);
    assert!(matches!(incr, TickDuration::Milliseconds(1000)));
}

#[test]
fn a_day_at_ten_ticks_steps_by_three_hours() {
    let d0 = dt(2000, 1, 1, 0, 0, 0);
    let d1 = dt(2000, 1, 2, 0, 0, 0);
    let incr = (d0..d1).tick_increment(10);
    assert!(matches!(incr, TickDuration::Hours(3)));
}

#[test]
fn a_year_at_ten_ticks_steps_by_a_month() {
    let d0 = dt(2000, 1, 1, 0, 0, 0);
    let d1 = dt(2001, 1, 1, 0, 0, 0);
    let incr = (d0..d1).tick_increment(10);
    assert!(matches!(incr, TickDuration::Months(1)));
}

#[test]
fn many_years_fall_back_to_a_computed_year_step() {
    let d0 = dt(2001, 1, 1, 0, 0, 0);
    let d1 = dt(2138, 1, 1, 0, 42, 0);
    let incr = (d0..d1).tick_increment(10);
    assert!(matches!(incr, TickDuration::Years(10)));
}

#[test]
fn a_sub_second_span_degenerates_to_a_zero_increment() {
    let d0 = dt(2000, 1, 1, 0, 0, 0);
    let d1 = dt(2000, 1, 1, 0, 0, 2);
    let incr = (d0..d1).tick_increment(10);
    assert!(matches!(incr, TickDuration::Milliseconds(0)));
}
