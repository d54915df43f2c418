//! `CurveLinear` produces a polyline through the specified points.

use crate::numeric::Numeric;
use crate::shape::curve::{CurveContext, CurveGenerator, PathCommand};
use vstd::prelude::*;

verus! {

/// The straight-line curve: a factory for polyline contexts.
#[derive(Clone, Copy, Debug)]
pub struct CurveLinear {}

impl CurveLinear {
    /// A new polyline curve.
    pub fn new() -> (r: Self)
        ensures
            r == (CurveLinear {  }),
    {
        Self {  }
    }
}

impl<S: Numeric> CurveGenerator<S> for CurveLinear {
    type Context = CurveLinearContext<S>;

    fn context(&self) -> (r: CurveLinearContext<S>)
        ensures
            CurveLinearContext::<S>::path_of(r.model()) == Seq::<PathCommand<S>>::empty(),
            r.model() == CurveLinearContext::<S>::start_model(r.model()),
    {
        CurveLinearContext { line_state: 0, path: Vec::new() }
    }

    fn size_hint(&self, points_count: usize) -> usize {
        points_count
    }
}

/// The mathematical state of a polyline: how many points the current line
/// has seen (saturating at two) and the commands so far.
pub struct LinearModel<S> {
    pub state: int,
    pub path: Seq<PathCommand<S>>,
}

/// What feeding a point does to a polyline: the first point of a line moves
/// there, every further point draws a straight line there.
pub open spec fn linear_point<S>(m: LinearModel<S>, x: S, y: S) -> LinearModel<S> {
    if m.state == 0 {
        LinearModel { state: 1, path: m.path.push(PathCommand::MoveTo(x, y)) }
    } else if m.state == 1 {
        LinearModel { state: 2, path: m.path.push(PathCommand::LineTo(x, y)) }
    } else {
        LinearModel { path: m.path.push(PathCommand::LineTo(x, y)), ..m }
    }
}

/// What finishing a line does to a polyline: a single-point line closes
/// onto itself, anything else is already drawn.
pub open spec fn linear_end<S>(m: LinearModel<S>) -> LinearModel<S> {
    if m.state == 1 {
        LinearModel { state: 0, path: m.path.push(PathCommand::ClosePath) }
    } else {
        LinearModel { state: 0, ..m }
    }
}

/// The polyline state machine.
#[derive(Debug)]
pub struct CurveLinearContext<S> {
    /// How many points of the current line have been seen, saturating at
    /// two.
    pub line_state: u8,
    /// The commands accumulated so far.
    pub path: Vec<PathCommand<S>>,
}

impl<S: Numeric> CurveContext<S> for CurveLinearContext<S> {
    type Model = LinearModel<S>;

    open spec fn model(self) -> LinearModel<S> {
        LinearModel { state: self.line_state as int, path: self.path@ }
    }

    open spec fn path_of(m: LinearModel<S>) -> Seq<PathCommand<S>> {
        m.path
    }

    open spec fn start_model(m: LinearModel<S>) -> LinearModel<S> {
        LinearModel { state: 0, ..m }
    }

    open spec fn point_model(m: LinearModel<S>, x: S, y: S) -> LinearModel<S> {
        linear_point(m, x, y)
    }

    open spec fn end_model(m: LinearModel<S>) -> LinearModel<S> {
        linear_end(m)
    }

    fn start_line(&mut self)
        ensures
            final(self).model() == Self::start_model(old(self).model()),
    {
        self.line_state = 0;
    }

    fn point(&mut self, x: S, y: S)
        ensures
            final(self).model() == Self::point_model(old(self).model(), x, y),
    {
        if self.line_state == 0 {
            self.line_state = 1;
            self.path.push(PathCommand::MoveTo(x, y));
        } else if self.line_state == 1 {
            self.line_state = 2;
            self.path.push(PathCommand::LineTo(x, y));
        } else {
            self.path.push(PathCommand::LineTo(x, y));
        }
    }

    fn end_line(&mut self)
        ensures
            final(self).model() == Self::end_model(old(self).model()),
    {
        if self.line_state == 1 {
            self.path.push(PathCommand::ClosePath);
        }
        self.line_state = 0;
    }

    fn path(&self) -> (r: &Vec<PathCommand<S>>)
        ensures
            r@ == Self::path_of(self.model()),
    {
        &self.path
    }
}

/// A single-point line is a loop onto itself: one point yields a move
/// followed by a close.
pub proof fn lemma_linear_single_point<S: Numeric>(m: LinearModel<S>, x: S, y: S)
    requires
        m.path == Seq::<PathCommand<S>>::empty(),
        m.state == 0,
    ensures
        linear_end(linear_point(m, x, y)).path == seq![
            PathCommand::MoveTo(x, y),
            PathCommand::ClosePath,
        ],
{
    assert(linear_end(linear_point(m, x, y)).path =~= seq![
        PathCommand::MoveTo(x, y),
        PathCommand::ClosePath,
    ]);
}

/// Three points yield exactly a move and two straight lines: no smoothing.
pub proof fn lemma_linear_three_points<S: Numeric>(
    m: LinearModel<S>,
    x1: S,
    y1: S,
    x2: S,
    y2: S,
    x3: S,
    y3: S,
)
    requires
        m.path == Seq::<PathCommand<S>>::empty(),
        m.state == 0,
    ensures
        linear_end(linear_point(linear_point(linear_point(m, x1, y1), x2, y2), x3, y3)).path
            == seq![
            PathCommand::MoveTo(x1, y1),
            PathCommand::LineTo(x2, y2),
            PathCommand::LineTo(x3, y3),
        ],
{
    assert(linear_end(linear_point(linear_point(linear_point(m, x1, y1), x2, y2), x3, y3)).path
        =~= seq![
        PathCommand::MoveTo(x1, y1),
        PathCommand::LineTo(x2, y2),
        PathCommand::LineTo(x3, y3),
    ]);
}

} // verus!
