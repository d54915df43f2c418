use bucky::numeric::Numeric;
use bucky::scale::band::ScaleBand;
use bucky::scale::linear::ScaleLinear;
use bucky::scale::log::ScaleLog;

#[derive(Clone, Copy, Debug, PartialEq)]
struct F(f64);

impl Numeric for F {
    fn plus_spec(self, other: Self) -> Self {
        self.plus(other)
    }
    fn minus_spec(self, other: Self) -> Self {
        self.minus(other)
    }
    fn times_spec(self, other: Self) -> Self {
        self.times(other)
    }
    fn over_spec(self, other: Self) -> Self {
        self.over(other)
    }
    fn lt_spec(self, other: Self) -> bool {
        self.lt(other)
    }
    fn rounded_spec(self) -> Self {
        self.rounded()
    }
    fn of_int_spec(n: i64) -> Self {
        F(n as f64)
    }
    fn ratio_spec(num: i64, den: i64) -> Self {
        F(num as f64 / den as f64)
    }
    fn plus(self, other: Self) -> Self {
        F(self.0 + other.0)
    }
    fn minus(self, other: Self) -> Self {
        F(self.0 - other.0)
    }
    fn times(self, other: Self) -> Self {
        F(self.0 * other.0)
    }
    fn over(self, other: Self) -> Self {
        F(self.0 / other.0)
    }
    fn lt(self, other: Self) -> bool {
        self.0 < other.0
    }
    fn rounded(self) -> Self {
        F(self.0.round())
    }
    fn of_int(n: i64) -> Self {
        F(n as f64)
    }
    fn ratio(num: i64, den: i64) -> Self {
        F(num as f64 / den as f64)
    }
}

#[test]
fn linear_defaults() {
    let scale = ScaleLinear::<F, _>::new();
    assert_eq!(scale.scale(F(2.0)), F(2.0));
}

#[test]
fn defaults_with_conversion() {
    let scale = ScaleLinear::<F, _>::new();
    assert_eq!(scale.scale(F(2 as f64)), F(2.0));
}

#[test]
fn clamped() {
    const MIN: f64 = 0.0;
    const MAX: f64 = 1.0;

    let scale = ScaleLinear::<F, _>::new()
        .domain(F(MIN)..F(MAX))
        .unwrap()
        .clamped(true);

    assert_eq!(scale.scale(F(MAX * 2.0)), scale.scale(F(MAX)));
}

#[test]
fn linear_rejects_descending_domains() {
    let r = ScaleLinear::<F, _>::new().domain(F(2.0)..F(1.0));
    assert!(matches!(r, Err(bucky::error::BuckyError::DescendingScale)));
}

#[test]
fn degenerate_domain_cannot_be_set() {
    let scale = ScaleLog::<F, _>::new();

    assert!(scale.clone().domain(F(0.0)..F(1.0)).is_err());
    assert!(scale.clone().domain(F(1.0)..F(0.0)).is_err());
    assert!(scale.clone().domain(F(0.0)..F(-1.0)).is_err());
    assert!(scale.clone().domain(F(-1.0)..F(0.0)).is_err());
    assert!(scale.clone().domain(F(-1.0)..F(1.0)).is_err());
    assert!(scale.clone().domain(F(0.0)..F(0.0)).is_err());
}

#[test]
fn one_signed_log_domains_are_accepted() {
    let scale = ScaleLog::<F, _>::new();
    assert!(scale.clone().domain(F(1.0)..F(2.0)).is_ok());
    assert!(scale.clone().domain(F(10.0)..F(1.0)).is_ok());
    assert!(scale.clone().domain(F(-5.0)..F(-1.0)).is_ok());
    assert!(matches!(
        scale.clone().domain(F(0.0)..F(1.0)),
        Err(bucky::error::BuckyError::DegenerateDomain)
    ));
}

#[test]
fn log_nice_is_a_loud_gap() {
    let scale = ScaleLog::<F, _>::new();
    assert_eq!(
        scale.nice(None).map(|_| ()),
        Err(bucky::error::BuckyError::Unimplemented)
    );
}

#[test]
fn band_expected_defaults() {
    let scale = ScaleBand::<i32, F>::new();

    assert_eq!(0, scale.domain.len());
    assert_eq!(F(0.0)..F(1.0), scale.range);
    assert_eq!(F(1.0), scale.band_width);
    assert_eq!(F(1.0), scale.step);
    assert_eq!(F(0.0), scale.padding_inner);
    assert_eq!(F(0.0), scale.padding_outer);
    assert_eq!(F(0.5), scale.align);
}

#[test]
fn computes_discrete_bands_in_a_continuous_range() {
    let scale = ScaleBand::<&str, F>::new().range(F(0.0)..F(960.0));

    {
        let scale = scale.clone().domain(&["foo", "bar"]);
        assert_eq!(F(0.0), scale.scale("foo"));
        assert_eq!(F(480.0), scale.scale("bar"));
    }

    {
        let domain = &["a", "b", "c"];
        let expected1 = &[0.0, 40.0, 80.0];
        let expected2 = &[7.5, 45.0, 82.5];

        let scale = scale.clone().domain(domain).range(F(0.0)..F(120.0));

        for (d, r) in domain.iter().zip(expected1) {
            assert_eq!(F(*r), scale.scale(*d))
        }

        assert_eq!(scale.band_width, F(40.0));

        let scale = scale.padding(F(0.2));

        for (d, r) in domain.iter().zip(expected2) {
            assert_eq!(F(*r), scale.scale(*d))
        }
        assert_eq!(scale.band_width, F(30.0));
    }
}

#[test]
fn step_returns_the_distance_between_the_starts_of_adjacent_bands() {
    let scale = ScaleBand::<&str, F>::new().range(F(0.0)..F(960.0));

    {
        let scale = scale.clone().domain(&["foo"]);
        assert_eq!(scale.step, F(960.0));
    }

    {
        let scale = scale.clone().domain(&["foo", "bar"]);
        assert_eq!(scale.step, F(480.0));
    }

    {
        let scale = scale.clone().domain(&["foo", "bar", "baz"]);
        assert_eq!(scale.step, F(320.0));
    }

    let scale = scale.padding(F(0.5));

    {
        let scale = scale.clone().domain(&["foo"]);
        assert_eq!(scale.step, F(640.0));
    }

    {
        let scale = scale.clone().domain(&["foo", "bar"]);
        assert_eq!(scale.step, F(384.0));
    }
}

#[test]
fn band_width_returns_the_width_of_the_band() {
    let scale = ScaleBand::<&str, F>::new().range(F(0.0)..F(960.0));

    {
        let scale = scale.clone().domain(&[]);
        assert_eq!(scale.band_width, F(960.0));
    }

    {
        let scale = scale.clone().domain(&["foo"]);
        assert_eq!(scale.band_width, F(960.0));
    }

    {
        let scale = scale.clone().domain(&["foo", "bar"]);
        assert_eq!(scale.band_width, F(480.0));
    }

    {
        let scale = scale.clone().domain(&["foo", "bar", "baz"]);
        assert_eq!(scale.band_width, F(320.0));
    }

    let scale = scale.padding(F(0.5));

    {
        let scale = scale.clone().domain(&[]);
        assert_eq!(scale.band_width, F(480.0));
    }

    {
        let scale = scale.clone().domain(&["foo"]);
        assert_eq!(scale.band_width, F(320.0));
    }

    {
        let scale = scale.clone().domain(&["foo", "bar"]);
        assert_eq!(scale.band_width, F(192.0));
    }
}

#[test]
fn ordinal_maps_categories_cyclically() {
    let domain = &["a", "b", "c"];
    let range = &[10, 20];
    let scale = bucky::scale::ordinal::ScaleOrdinal::new()
        .domain(domain)
        .range(range);
    assert_eq!(10, scale.scale("a"));
    assert_eq!(20, scale.scale("b"));
    assert_eq!(10, scale.scale("c"));
}

#[test]
fn error_kinds_describe_themselves() {
    assert_eq!(
        bucky::error::BuckyError::DegenerateDomain.describe(),
        "domain must not include 0"
    );
    assert_eq!(
        bucky::error::BuckyError::DescendingScale.describe(),
        "descending scale not allowed"
    );
    assert_eq!(
        bucky::error::BuckyError::Unimplemented.describe(),
        "not implemented"
    );
}
