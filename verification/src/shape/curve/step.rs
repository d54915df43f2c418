//! `CurveStep` produces alternating horizontal and vertical lines.
//!
//! `CurveStep` creates a piecewise constant function consisting of
//! alternating horizontal and vertical lines. The y-value changes at a
//! configurable fraction between each pair of adjacent x-values — at their
//! midpoint by default.

use crate::numeric::Numeric;
use crate::shape::curve::{CurveContext, CurveGenerator, PathCommand};
use vstd::prelude::*;

verus! {

/// The staircase curve: a factory for step contexts with the break at the
/// midpoint.
#[derive(Clone, Copy, Debug)]
pub struct CurveStep {}

impl CurveStep {
    /// A new staircase curve.
    pub fn new() -> (r: Self)
        ensures
            r == (CurveStep {  }),
    {
        Self {  }
    }
}

impl<S: Numeric> CurveGenerator<S> for CurveStep {
    type Context = CurveStepContext<S>;

    fn context(&self) -> (r: CurveStepContext<S>)
        ensures
            CurveStepContext::<S>::path_of(r.model()) == Seq::<PathCommand<S>>::empty(),
            r.model() == CurveStepContext::<S>::start_model(r.model()),
            r.t == S::of_int_spec(1).over_spec(S::of_int_spec(2)),
    {
        CurveStepContext {
            line_state: 0,
            x: S::of_int(0),
            y: S::of_int(0),
            t: S::of_int(1).over(S::of_int(2)),
            path: Vec::new(),
        }
    }

    fn size_hint(&self, points_count: usize) -> usize {
        points_count
    }
}

/// The mathematical state of a staircase: the phase, the previous point,
/// the break fraction and the commands so far.
pub struct StepModel<S> {
    pub state: int,
    pub x: S,
    pub y: S,
    pub t: S,
    pub path: Seq<PathCommand<S>>,
}

/// What feeding a point does to a staircase: the first point of a line
/// moves there; each further point breaks horizontally at the fraction `t`
/// between the previous and the new x, then vertically to the new y.
pub open spec fn step_point<S: Numeric>(m: StepModel<S>, x: S, y: S) -> StepModel<S> {
    if m.state == 0 {
        StepModel { state: 1, x, y, path: m.path.push(PathCommand::MoveTo(x, y)), ..m }
    } else {
        let x1 = m.x.times_spec(S::of_int_spec(1).minus_spec(m.t)).plus_spec(x.times_spec(m.t));
        StepModel {
            state: 2,
            x,
            y,
            path: m.path.push(PathCommand::LineTo(x1, m.y)).push(PathCommand::LineTo(x1, y)),
            ..m
        }
    }
}

/// What finishing a line does to a staircase: with a break strictly inside
/// the pair, a final line reaches the last point; a single-point line
/// closes onto itself.
pub open spec fn step_end<S: Numeric>(m: StepModel<S>) -> StepModel<S> {
    let with_tail = if S::of_int_spec(0).lt_spec(m.t) && m.t.lt_spec(S::of_int_spec(1)) && m.state
        == 2 {
        StepModel { path: m.path.push(PathCommand::LineTo(m.x, m.y)), ..m }
    } else {
        m
    };
    if m.state == 1 {
        StepModel { path: with_tail.path.push(PathCommand::ClosePath), ..with_tail }
    } else {
        with_tail
    }
}

/// The staircase state machine.
#[derive(Debug)]
pub struct CurveStepContext<S> {
    /// How many points of the current line have been seen, saturating at
    /// two.
    pub line_state: u8,
    /// The previous point's x.
    pub x: S,
    /// The previous point's y.
    pub y: S,
    /// Where between two x-values the vertical break sits.
    pub t: S,
    /// The commands accumulated so far.
    pub path: Vec<PathCommand<S>>,
}

impl<S: Numeric> CurveContext<S> for CurveStepContext<S> {
    type Model = StepModel<S>;

    open spec fn model(self) -> StepModel<S> {
        StepModel {
            state: self.line_state as int,
            x: self.x,
            y: self.y,
            t: self.t,
            path: self.path@,
        }
    }

    open spec fn path_of(m: StepModel<S>) -> Seq<PathCommand<S>> {
        m.path
    }

    open spec fn start_model(m: StepModel<S>) -> StepModel<S> {
        StepModel { state: 0, ..m }
    }

    open spec fn point_model(m: StepModel<S>, x: S, y: S) -> StepModel<S> {
        step_point(m, x, y)
    }

    open spec fn end_model(m: StepModel<S>) -> StepModel<S> {
        step_end(m)
    }

    fn start_line(&mut self)
        ensures
            final(self).model() == Self::start_model(old(self).model()),
    {
        self.line_state = 0;
    }

    fn point(&mut self, x: S, y: S)
        ensures
            final(self).model() == Self::point_model(old(self).model(), x, y),
    {
        if self.line_state == 0 {
            self.line_state = 1;
            self.path.push(PathCommand::MoveTo(x, y));
        } else {
            self.line_state = 2;
            let x1 = self.x.times(S::of_int(1).minus(self.t)).plus(x.times(self.t));
            self.path.push(PathCommand::LineTo(x1, self.y));
            self.path.push(PathCommand::LineTo(x1, y));
        }
        self.x = x;
        self.y = y;
    }

    fn end_line(&mut self)
        ensures
            final(self).model() == Self::end_model(old(self).model()),
    {
        if S::of_int(0).lt(self.t) && self.t.lt(S::of_int(1)) && self.line_state == 2 {
            self.path.push(PathCommand::LineTo(self.x, self.y));
        }
        if self.line_state == 1 {
            self.path.push(PathCommand::ClosePath);
        }
    }

    fn path(&self) -> (r: &Vec<PathCommand<S>>)
        ensures
            r@ == Self::path_of(self.model()),
    {
        &self.path
    }
}

} // verus!
