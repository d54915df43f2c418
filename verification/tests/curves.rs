use bucky::numeric::Numeric;
use bucky::shape::curve::basis::CurveBasis;
use bucky::shape::curve::cardinal::CurveCardinal;
use bucky::shape::curve::natural::CurveNatural;
use bucky::shape::curve::step::CurveStep;
use bucky::shape::curve::PathCommand;
use bucky::shape::line::{Line, LineSource};

#[derive(Clone, Copy, Debug, PartialEq)]
struct F(f64);

impl Numeric for F {
    fn plus_spec(self, other: Self) -> Self {
        self.plus(other)
    }
    fn minus_spec(self, other: Self) -> Self {
        self.minus(other)
    }
    fn times_spec(self, other: Self) -> Self {
        self.times(other)
    }
    fn over_spec(self, other: Self) -> Self {
        self.over(other)
    }
    fn lt_spec(self, other: Self) -> bool {
        self.lt(other)
    }
    fn rounded_spec(self) -> Self {
        self.rounded()
    }
    fn of_int_spec(n: i64) -> Self {
        F(n as f64)
    }
    fn ratio_spec(num: i64, den: i64) -> Self {
        F(num as f64 / den as f64)
    }
    fn plus(self, other: Self) -> Self {
        F(self.0 + other.0)
    }
    fn minus(self, other: Self) -> Self {
        F(self.0 - other.0)
    }
    fn times(self, other: Self) -> Self {
        F(self.0 * other.0)
    }
    fn over(self, other: Self) -> Self {
        F(self.0 / other.0)
    }
    fn lt(self, other: Self) -> bool {
        self.0 < other.0
    }
    fn rounded(self) -> Self {
        F(self.0.round())
    }
    fn of_int(n: i64) -> Self {
        F(n as f64)
    }
    fn ratio(num: i64, den: i64) -> Self {
        F(num as f64 / den as f64)
    }
}

#[derive(Clone, Copy, Debug)]
struct Datum(f64, f64);

impl LineSource<F> for Datum {
    fn x_spec(&self) -> F {
        F(self.0)
    }
    fn y_spec(&self) -> F {
        F(self.1)
    }
    fn defined_spec(&self) -> bool {
        !self.0.is_nan() && !self.1.is_nan()
    }
    fn x(&self) -> F {
        F(self.0)
    }
    fn y(&self) -> F {
        F(self.1)
    }
    fn defined(&self) -> bool {
        !self.0.is_nan() && !self.1.is_nan()
    }
}

// Renders a command list in the textual path mini-language, with every
// coordinate narrowed to f32 as vector-graphics backends store it: a closing
// command draws the line back to the subpath's first point.
fn render(cmds: &[PathCommand<F>]) -> String {
    let mut out = String::new();
    let mut first = (0f32, 0f32);
    for c in cmds {
        if !out.is_empty() {
            out.push(' ');
        }
        match c {
            PathCommand::MoveTo(x, y) => {
                first = (x.0 as f32, y.0 as f32);
                out.push_str(&format!("M {} {}", x.0 as f32, y.0 as f32));
            }
            PathCommand::LineTo(x, y) => {
                out.push_str(&format!("L {} {}", x.0 as f32, y.0 as f32));
            }
            PathCommand::BezierTo(c1x, c1y, c2x, c2y, x, y) => {
                out.push_str(&format!(
                    "C {} {} {} {} {} {}",
                    c1x.0 as f32, c1y.0 as f32, c2x.0 as f32, c2y.0 as f32, x.0 as f32, y.0 as f32
                ));
            }
            PathCommand::ClosePath => {
                out.push_str(&format!("L {} {} z", first.0, first.1));
            }
        }
    }
    out
}

#[test]
fn linear_expected_results() {
    let line = Line::new();

    {
        let data: &[Datum] = &[Datum(0., 1.)];
        assert_eq!("M 0 1 L 0 1 z", render(&line.generate(data)));
    }

    {
        let data: &[Datum] = &[Datum(0., 1.), Datum(2., 3.)];
        assert_eq!("M 0 1 L 2 3", render(&line.generate(data)));
    }

    {
        let data: &[Datum] = &[Datum(0., 1.), Datum(2., 3.), Datum(4., 5.)];
        assert_eq!("M 0 1 L 2 3 L 4 5", render(&line.generate(data)));
    }
}

#[test]
fn step_expected_results() {
    let line = Line::new().curve(CurveStep::new());

    {
        let data: &[Datum] = &[Datum(0., 1.)];
        assert_eq!("M 0 1 L 0 1 z", render(&line.generate(data)));
    }

    {
        let data: &[Datum] = &[Datum(0., 1.), Datum(2., 3.)];
        assert_eq!("M 0 1 L 1 1 L 1 3 L 2 3", render(&line.generate(data)));
    }

    {
        let data: &[Datum] = &[Datum(0., 1.), Datum(2., 3.), Datum(4., 5.)];
        assert_eq!(
            "M 0 1 L 1 1 L 1 3 L 3 3 L 3 5 L 4 5",
            render(&line.generate(data))
        );
    }
}

#[test]
fn basis_expected_results() {
    let line = Line::new().curve(CurveBasis::new());

    {
        let data: &[Datum] = &[Datum(0., 1.)];
        assert_eq!("M 0 1 L 0 1 z", render(&line.generate(data)));
    }

    {
        let data: &[Datum] = &[Datum(0., 1.), Datum(1., 3.)];
        assert_eq!("M 0 1 L 1 3", render(&line.generate(data)));
    }

    {
        let data: &[Datum] = &[Datum(0., 1.), Datum(1., 3.), Datum(2., 1.)];
        assert_eq!("M 0 1 L 0.16666667 1.3333334 C 0.33333334 1.6666666 0.6666667 2.3333333 1 2.3333333 C 1.3333334 2.3333333 1.6666666 1.6666666 1.8333334 1.3333334 L 2 1", render(&line.generate(data)));
    }
}

#[test]
fn cardinal_expected_results() {
    let line = Line::new().curve(CurveCardinal::new());

    {
        let data: &[Datum] = &[Datum(0., 1.)];
        assert_eq!("M 0 1 L 0 1 z", render(&line.generate(data)));
    }

    {
        let data: &[Datum] = &[Datum(0., 1.), Datum(1., 3.)];
        assert_eq!("M 0 1 L 1 3", render(&line.generate(data)));
    }

    {
        let data: &[Datum] = &[Datum(0., 1.), Datum(1., 3.), Datum(2., 1.)];
        assert_eq!(
            "M 0 1 C 0 1 0.6666667 3 1 3 C 1.3333334 3 2 1 2 1",
            render(&line.generate(data))
        );
    }

    {
        let data: &[Datum] = &[Datum(0., 1.), Datum(1., 3.), Datum(2., 1.), Datum(3., 3.)];
        assert_eq!(
            "M 0 1 C 0 1 0.6666667 3 1 3 C 1.3333334 3 1.6666666 1 2 1 C 2.3333333 1 3 3 3 3",
            render(&line.generate(data))
        );
    }
}

#[test]
fn expected_results_with_different_tension() {
    let line = Line::new().curve(CurveCardinal::with_tension(F(0.5)));

    {
        let data: &[Datum] = &[Datum(0., 1.), Datum(1., 3.), Datum(2., 1.), Datum(3., 3.)];
        assert_eq!(
            "M 0 1 C 0 1 0.8333333 3 1 3 C 1.1666666 3 1.8333334 1 2 1 C 2.1666667 1 3 3 3 3",
            render(&line.generate(data))
        );
    }
}

#[test]
fn natural_expected_results() {
    let line = Line::new().curve(CurveNatural::new());

    {
        let data: &[Datum] = &[Datum(0., 1.)];
        assert_eq!("M 0 1 L 0 1 z", render(&line.generate(data)));
    }

    {
        let data: &[Datum] = &[Datum(0., 1.), Datum(1., 3.)];
        assert_eq!("M 0 1 L 1 3", render(&line.generate(data)));
    }

    {
        let data: &[Datum] = &[Datum(0., 1.), Datum(1., 3.), Datum(2., 1.)];
        assert_eq!(
            "M 0 1 C 0.33333334 2 0.6666667 3 1 3 C 1.3333334 3 1.6666666 2 2 1",
            render(&line.generate(data))
        );
    }

    {
        let data: &[Datum] = &[Datum(0., 1.), Datum(1., 3.), Datum(2., 1.), Datum(3., 3.)];
        assert_eq!("M 0 1 C 0.33333334 2.1111112 0.6666667 3.2222223 1 3 C 1.3333334 2.7777777 1.6666666 1.2222222 2 1 C 2.3333333 0.7777778 2.6666667 1.8888888 3 3", render(&line.generate(data)));
    }
}

#[test]
fn undefined_points_break_the_line_into_segments() {
    let line = Line::new();
    let data: &[Datum] = &[
        Datum(0., 1.),
        Datum(1., 2.),
        Datum(f64::NAN, f64::NAN),
        Datum(3., 4.),
        Datum(4., 5.),
    ];
    let cmds = line.generate(data);
    assert_eq!(cmds.len(), 4);
    assert!(matches!(cmds[0], PathCommand::MoveTo(F(x), F(y)) if x == 0. && y == 1.));
    assert!(matches!(cmds[1], PathCommand::LineTo(F(x), F(y)) if x == 1. && y == 2.));
    assert!(matches!(cmds[2], PathCommand::MoveTo(F(x), F(y)) if x == 3. && y == 4.));
    assert!(matches!(cmds[3], PathCommand::LineTo(F(x), F(y)) if x == 4. && y == 5.));
}

#[test]
fn empty_data_yields_an_empty_path() {
    let line = Line::new();
    let data: &[Datum] = &[];
    let cmds: Vec<PathCommand<F>> = line.generate(data);
    assert_eq!(cmds.len(), 0);
}
