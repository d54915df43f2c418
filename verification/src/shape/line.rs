//! Line generators create paths from source data.

use crate::numeric::Numeric;
use crate::shape::curve::linear::CurveLinear;
use crate::shape::curve::{CurveContext, CurveGenerator, PathCommand};
use vstd::prelude::*;

verus! {

/// A datum a line generator can read: a point and whether it is defined.
/// Implement this for the records a chart draws.
pub trait LineSource<S: Numeric> {
    /// What `x` returns.
    spec fn x_spec(&self) -> S;

    /// What `y` returns.
    spec fn y_spec(&self) -> S;

    /// What `defined` returns.
    spec fn defined_spec(&self) -> bool;

    /// The datum's horizontal coordinate.
    fn x(&self) -> (r: S)
        ensures
            r == self.x_spec(),
    ;

    /// The datum's vertical coordinate.
    fn y(&self) -> (r: S)
        ensures
            r == self.y_spec(),
    ;

    /// Whether the datum takes part in the line at all.
    fn defined(&self) -> (r: bool)
        ensures
            r == self.defined_spec(),
    ;
}

/// Feeding a run of data into a curve machine: a run of defined points
/// forms one continuous segment; an undefined point ends the segment, and a
/// later defined point starts a new one. Returns the machine's model and
/// whether a segment is still open.
pub open spec fn run_line<S: Numeric, Ctx: CurveContext<S>>(
    m: Ctx::Model,
    data: Seq<(bool, S, S)>,
    active: bool,
) -> (Ctx::Model, bool)
    decreases data.len(),
{
    if data.len() == 0 {
        (m, active)
    } else if data[0].0 {
        let m1 = if active {
            m
        } else {
            Ctx::start_model(m)
        };
        run_line::<S, Ctx>(Ctx::point_model(m1, data[0].1, data[0].2), data.drop_first(), true)
    } else {
        let m1 = if active {
            Ctx::end_model(m)
        } else {
            m
        };
        run_line::<S, Ctx>(m1, data.drop_first(), false)
    }
}

/// The model after the whole line: any still-open segment is finished.
pub open spec fn finish_line<S: Numeric, Ctx: CurveContext<S>>(
    m: Ctx::Model,
    data: Seq<(bool, S, S)>,
) -> Ctx::Model {
    let (mf, active) = run_line::<S, Ctx>(m, data, false);
    if active {
        Ctx::end_model(mf)
    } else {
        mf
    }
}

/// One more datum extends the run from the back.
pub proof fn lemma_run_line_push<S: Numeric, Ctx: CurveContext<S>>(
    m: Ctx::Model,
    data: Seq<(bool, S, S)>,
    active: bool,
    e: (bool, S, S),
)
    ensures
        ({
            let (mf, af) = run_line::<S, Ctx>(m, data, active);
            run_line::<S, Ctx>(m, data.push(e), active) == if e.0 {
                let m1 = if af {
                    mf
                } else {
                    Ctx::start_model(mf)
                };
                (Ctx::point_model(m1, e.1, e.2), true)
            } else {
                let m1 = if af {
                    Ctx::end_model(mf)
                } else {
                    mf
                };
                (m1, false)
            }
        }),
    decreases data.len(),
{
    if data.len() == 0 {
        assert(data.push(e).drop_first() =~= Seq::<(bool, S, S)>::empty());
        assert(data.push(e)[0] == e);
        reveal_with_fuel(run_line, 3);
    } else {
        assert(data.push(e).drop_first() =~= data.drop_first().push(e));
        assert(data.push(e)[0] == data[0]);
        if data[0].0 {
            let m1 = if active {
                m
            } else {
                Ctx::start_model(m)
            };
            lemma_run_line_push::<S, Ctx>(Ctx::point_model(m1, data[0].1, data[0].2),
                data.drop_first(), true, e);
        } else {
            let m1 = if active {
                Ctx::end_model(m)
            } else {
                m
            };
            lemma_run_line_push::<S, Ctx>(m1, data.drop_first(), false, e);
        }
    }
}

/// The spec-level view of a data slice: defined flag and coordinates of
/// each datum.
pub open spec fn source_points<S: Numeric, T: LineSource<S>>(data: Seq<T>) -> Seq<(bool, S, S)> {
    Seq::new(data.len(), |i: int| (data[i].defined_spec(), data[i].x_spec(), data[i].y_spec()))
}

/// `Line` is a Cartesian line generator: it walks source data and drives a
/// curve machine, one segment per run of defined points.
#[derive(Clone, Copy, Debug)]
pub struct Line<C> {
    /// The curve factory used for each generated path.
    pub curve: C,
}

impl Line<CurveLinear> {
    /// Constructs a new line generator drawing straight segments.
    pub fn new() -> (r: Self)
        ensures
            r.curve == (CurveLinear {  }),
    {
        Self { curve: CurveLinear::new() }
    }
}

impl<C> Line<C> {
    /// Sets the curve factory used by the line generator.
    pub fn curve<C2>(self, curve: C2) -> (r: Line<C2>)
        ensures
            r.curve == curve,
    {
        Line { curve }
    }

    /// Generates the path for `data`: each datum's `defined` accessor
    /// decides whether its point joins the current segment or breaks it, so
    /// one line may hold several disjoint segments. The result is exactly
    /// the command run of this line's curve machine over the data, started
    /// from a fresh context.
    pub fn generate<S: Numeric, T: LineSource<S>>(&self, data: &[T]) -> (r: Vec<PathCommand<S>>)
        where C: CurveGenerator<S>,
        ensures
            exists|m0: <C::Context as CurveContext<S>>::Model|
                {
                    &&& <C::Context as CurveContext<S>>::path_of(m0) == Seq::<
                        PathCommand<S>,
                    >::empty()
                    &&& m0 == <C::Context as CurveContext<S>>::start_model(m0)
                    &&& r@ == <C::Context as CurveContext<S>>::path_of(
                        finish_line::<S, C::Context>(m0, source_points(data@)),
                    )
                },
    {
        let mut context = self.curve.context();
        let ghost m0 = context.model();
        let ghost pts = source_points::<S, T>(data@);
        let mut active = false;
        let mut i: usize = 0;
        while i < data.len()
            invariant
                0 <= i <= data.len(),
                pts == source_points::<S, T>(data@),
                pts.len() == data.len(),
                (context.model(), active) == run_line::<S, C::Context>(m0, pts.take(i as int),
                    false),
            decreases data.len() - i,
        {
            proof {
                lemma_run_line_push::<S, C::Context>(m0, pts.take(i as int), false,
                    pts[i as int]);
                assert(pts.take(i as int).push(pts[i as int]) =~= pts.take(i + 1));
            }
            if data[i].defined() {
                if !active {
                    context.start_line();
                    active = true;
                }
                context.point(data[i].x(), data[i].y());
            } else {
                if active {
                    context.end_line();
                    active = false;
                }
            }
            i = i + 1;
        }
        proof {
            assert(pts.take(data.len() as int) =~= pts);
        }
        if active {
            context.end_line();
        }
        let mut out: Vec<PathCommand<S>> = Vec::new();
        let path = context.path();
        let mut j: usize = 0;
        while j < path.len()
            invariant
                0 <= j <= path.len(),
                out@ =~= path@.take(j as int),
                path@ == <C::Context as CurveContext<S>>::path_of(context.model()),
            decreases path.len() - j,
        {
            proof {
                assert(path@.take(j as int).push(path@[j as int]) =~= path@.take(j + 1));
            }
            out.push(path[j]);
            j = j + 1;
        }
        proof {
            assert(path@.take(path@.len() as int) =~= path@);
        }
        out
    }
}

} // verus!
