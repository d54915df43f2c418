use bucky::interpolate::number::{NumberInterpolator, RoundInterpolator};
use bucky::interpolate::RangeInterpolator;
use bucky::numeric::Numeric;

#[derive(Clone, Copy, Debug, PartialEq)]
struct F(f64);

impl Numeric for F {
    fn plus_spec(self, other: Self) -> Self {
        self.plus(other)
    }
    fn minus_spec(self, other: Self) -> Self {
        self.minus(other)
    }
    fn times_spec(self, other: Self) -> Self {
        self.times(other)
    }
    fn over_spec(self, other: Self) -> Self {
        self.over(other)
    }
    fn lt_spec(self, other: Self) -> bool {
        self.lt(other)
    }
    fn rounded_spec(self) -> Self {
        self.rounded()
    }
    fn of_int_spec(n: i64) -> Self {
        F(n as f64)
    }
    fn ratio_spec(num: i64, den: i64) -> Self {
        F(num as f64 / den as f64)
    }
    fn plus(self, other: Self) -> Self {
        F(self.0 + other.0)
    }
    fn minus(self, other: Self) -> Self {
        F(self.0 - other.0)
    }
    fn times(self, other: Self) -> Self {
        F(self.0 * other.0)
    }
    fn over(self, other: Self) -> Self {
        F(self.0 / other.0)
    }
    fn lt(self, other: Self) -> bool {
        self.0 < other.0
    }
    fn rounded(self) -> Self {
        F(self.0.round())
    }
    fn of_int(n: i64) -> Self {
        F(n as f64)
    }
    fn ratio(num: i64, den: i64) -> Self {
        F(num as f64 / den as f64)
    }
}

const DELTA: f64 = 1e-6;

fn assert_delta(lhs: f64, rhs: F) {
    assert!(
        lhs - DELTA < rhs.0 && rhs.0 < lhs + DELTA,
        "{} is not between {} and {}",
        rhs.0,
        lhs - DELTA,
        lhs + DELTA
    );
}

#[test]
fn number() {
    let i = F(10.0)..F(42.0);
    let interp = NumberInterpolator {};

    assert_delta(10.0, interp.interpolate_range(&i, F(0.0)));
    assert_delta(13.2, interp.interpolate_range(&i, F(0.1)));
    assert_delta(16.4, interp.interpolate_range(&i, F(0.2)));
    assert_delta(19.6, interp.interpolate_range(&i, F(0.3)));
    assert_delta(22.8, interp.interpolate_range(&i, F(0.4)));
    assert_delta(26.0, interp.interpolate_range(&i, F(0.5)));
    assert_delta(29.2, interp.interpolate_range(&i, F(0.6)));
    assert_delta(32.4, interp.interpolate_range(&i, F(0.7)));
    assert_delta(35.6, interp.interpolate_range(&i, F(0.8)));
    assert_delta(38.8, interp.interpolate_range(&i, F(0.9)));
    assert_delta(42.0, interp.interpolate_range(&i, F(1.0)));
}

#[test]
fn new_trait() {
    let range = F(10.0)..F(42.0);
    let interp = RoundInterpolator {};

    assert_eq!(F(10.0), interp.interpolate_range(&range, F(0.0)));
    assert_eq!(F(13.0), interp.interpolate_range(&range, F(0.1)));
    assert_eq!(F(16.0), interp.interpolate_range(&range, F(0.2)));
    assert_eq!(F(20.0), interp.interpolate_range(&range, F(0.3)));
    assert_eq!(F(42.0), interp.interpolate_range(&range, F(1.0)));
}

#[test]
fn interpolators_over_exact_integers() {
    let range = 10i64..42i64;
    let interp = NumberInterpolator {};
    assert_eq!(10, interp.interpolate_range(&range, 0));
    assert_eq!(42, interp.interpolate_range(&range, 1));
}
