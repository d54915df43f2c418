use bucky::datetime::DateTime;
use bucky::numeric::Numeric;
use bucky::scale::continuous::ScaleContinuous;
use bucky::scale::time::ScaleTime;
use chrono::{Datelike, Timelike};

const RFC_3339_FMT: &str = "%Y-%m-%dT%H:%M:%S";

#[derive(Clone, Copy, Debug, PartialEq)]
struct F(f64);

impl Numeric for F {
    fn plus_spec(self, other: Self) -> Self {
        self.plus(other)
    }
    fn minus_spec(self, other: Self) -> Self {
        self.minus(other)
    }
    fn times_spec(self, other: Self) -> Self {
        self.times(other)
    }
    fn over_spec(self, other: Self) -> Self {
        self.over(other)
    }
    fn lt_spec(self, other: Self) -> bool {
        self.lt(other)
    }
    fn rounded_spec(self) -> Self {
        self.rounded()
    }
    fn of_int_spec(n: i64) -> Self {
        F(n as f64)
    }
    fn ratio_spec(num: i64, den: i64) -> Self {
        F(num as f64 / den as f64)
    }
    fn plus(self, other: Self) -> Self {
        F(self.0 + other.0)
    }
    fn minus(self, other: Self) -> Self {
        F(self.0 - other.0)
    }
    fn times(self, other: Self) -> Self {
        F(self.0 * other.0)
    }
    fn over(self, other: Self) -> Self {
        F(self.0 / other.0)
    }
    fn lt(self, other: Self) -> bool {
        self.0 < other.0
    }
    fn rounded(self) -> Self {
        F(self.0.round())
    }
    fn of_int(n: i64) -> Self {
        F(n as f64)
    }
    fn ratio(num: i64, den: i64) -> Self {
        F(num as f64 / den as f64)
    }
}

fn parse(s: &str) -> DateTime {
    let n = chrono::NaiveDateTime::parse_from_str(s, RFC_3339_FMT).unwrap();
    DateTime::new(
        n.year() as i64,
        n.month() as i64,
        n.day() as i64,
        n.hour() as i64,
        n.minute() as i64,
        n.second() as i64,
    )
    .unwrap()
}

#[test]
fn time_defaults() {
    let scale = ScaleTime::<F, _>::new();

    {
        let point = parse("2000-01-01T00:00:00");
        assert_eq!(F(0.0), scale.scale(point));
    }

    {
        let point = parse("2000-01-01T12:00:00");
        assert_eq!(F(0.5), scale.scale(point));
    }

    {
        let point = parse("2000-01-02T00:00:00");
        assert_eq!(F(1.0), scale.scale(point));
    }
}

#[test]
fn nice_defaults_to_10() {
    let scale = {
        let d0 = parse("2000-01-01T00:17:00");
        let d1 = parse("2000-01-01T23:42:00");
        ScaleTime::<F, _>::new()
            .domain(d0..d1)
            .unwrap()
            .nice(None)
            .unwrap()
    };

    let d0 = parse("2000-01-01T00:00:00");
    let d1 = parse("2000-01-02T00:00:00");
    assert_eq!(scale.domain.start, d0);
    assert_eq!(scale.domain.end, d1);
}

#[test]
fn nice_multi_year() {
    let scale = {
        let d0 = parse("2001-01-01T00:00:00");
        let d1 = parse("2138-01-01T00:42:00");
        ScaleTime::<F, _>::new()
            .domain(d0..d1)
            .unwrap()
            .nice(None)
            .unwrap()
    };

    let d0 = parse("2000-01-01T00:00:00");
    let d1 = parse("2140-01-01T00:00:00");
    assert_eq!(scale.domain.start, d0);
    assert_eq!(scale.domain.end, d1);
}

#[test]
fn nice_works_on_empty_domain() {
    let d0 = parse("2009-01-01T00:12:00");
    let d1 = parse("2009-01-01T00:12:00");

    let scale = ScaleTime::<F, _>::new()
        .domain(d0..d1)
        .unwrap()
        .nice(None)
        .unwrap();

    assert_eq!(d0..d1, scale.domain);
}

#[test]
fn nice_uses_the_specified_tick_count() {
    let scale = {
        let d0 = parse("2009-01-01T00:17:00");
        let d1 = parse("2009-01-01T23:42:00");

        ScaleTime::<F, _>::new().domain(d0..d1).unwrap()
    };

    {
        let d0 = parse("2009-01-01T00:15:00");
        let d1 = parse("2009-01-01T23:45:00");
        let domain = scale.clone().nice(Some(100)).unwrap().domain;

        assert_eq!(d0..d1, domain);
    }

    {
        let d0 = parse("2009-01-01T00:00:00");
        let d1 = parse("2009-01-02T00:00:00");
        let domain = scale.clone().nice(Some(10)).unwrap().domain;

        assert_eq!(d0..d1, domain);
    }
}

#[test]
fn nice_empty_domains() {
    let _scale = {
        let d0 = parse("2009-01-01T00:17:00");
        let d1 = parse("2009-01-01T23:42:00");

        ScaleTime::<F, _>::new().domain(d0..d1).unwrap()
    };
}

#[test]
fn one_second_ticks() {
    let scale = {
        let d0 = parse("2011-01-01T12:00:00");
        let d1 = parse("2011-01-01T12:00:04");
        ScaleTime::<F, _>::new().domain(d0..d1).unwrap()
    };

    let ticks = scale.ticks(Some(4));

    assert_eq!(parse("2011-01-01T12:00:00"), ticks[0]);
    assert_eq!(parse("2011-01-01T12:00:01"), ticks[1]);
    assert_eq!(parse("2011-01-01T12:00:02"), ticks[2]);
    assert_eq!(parse("2011-01-01T12:00:03"), ticks[3]);
    assert_eq!(parse("2011-01-01T12:00:04"), ticks[4]);
}

#[test]
fn ticks_ascend_and_stay_inside_the_domain() {
    let d0 = parse("2011-01-01T00:00:00");
    let d1 = parse("2011-03-15T00:00:00");
    let scale = ScaleTime::<F, _>::new().domain(d0..d1).unwrap();
    let ticks = scale.ticks(None);
    assert!(ticks.len() >= 2);
    for w in ticks.windows(2) {
        assert!(w[0].before_eq(&w[1]));
        assert!(!w[1].before_eq(&w[0]));
    }
    for t in &ticks {
        assert!(d0.before_eq(t));
        assert!(t.before_eq(&d1));
    }
}

#[test]
fn descending_time_domains_are_refused() {
    let d0 = parse("2011-01-02T00:00:00");
    let d1 = parse("2011-01-01T00:00:00");
    let r = ScaleTime::<F, _>::new().domain(d0..d1);
    assert!(matches!(r, Err(bucky::error::BuckyError::DescendingScale)));
}

#[test]
fn time_scale_clamps_when_asked() {
    let scale = ScaleTime::<F, _>::new().clamped(true);
    let late = parse("2000-01-05T00:00:00");
    let end = parse("2000-01-02T00:00:00");
    assert_eq!(scale.scale(late), scale.scale(end));
}

#[test]
fn nice_is_idempotent_once_aligned() {
    let d0 = parse("2000-01-01T00:00:02");
    let d1 = parse("2000-01-01T00:00:47");
    let once = ScaleTime::<F, _>::new()
        .domain(d0..d1)
        .unwrap()
        .nice(Some(10))
        .unwrap();
    assert_eq!(once.domain.start, parse("2000-01-01T00:00:00"));
    assert_eq!(once.domain.end, parse("2000-01-01T00:00:50"));
    let twice = once.clone().nice(Some(10)).unwrap();
    assert_eq!(once.domain, twice.domain);

    let e0 = parse("2000-01-01T00:17:00");
    let e1 = parse("2000-01-01T23:42:00");
    let hours_once = ScaleTime::<F, _>::new()
        .domain(e0..e1)
        .unwrap()
        .nice(None)
        .unwrap();
    let hours_twice = hours_once.clone().nice(None).unwrap();
    assert_eq!(hours_once.domain, hours_twice.domain);
}
