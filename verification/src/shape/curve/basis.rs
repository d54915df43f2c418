//! `CurveBasis` produces a cubic basis spline using the specified control
//! points.
//!
//! The first and last points are triplicated such that the spline starts at
//! the first point and ends at the last point, and is tangent to the line
//! between the first and second points, and to the line between the
//! penultimate and last points.

use crate::numeric::Numeric;
use crate::shape::curve::{CurveContext, CurveGenerator, PathCommand};
use vstd::prelude::*;

verus! {

/// The basis spline curve: a factory for basis contexts.
#[derive(Clone, Copy, Debug)]
pub struct CurveBasis {}

impl CurveBasis {
    /// A new basis spline curve.
    pub fn new() -> (r: Self)
        ensures
            r == (CurveBasis {  }),
    {
        Self {  }
    }
}

impl<S: Numeric> CurveGenerator<S> for CurveBasis {
    type Context = CurveBasisContext<S>;

    fn context(&self) -> (r: CurveBasisContext<S>)
        ensures
            CurveBasisContext::<S>::path_of(r.model()) == Seq::<PathCommand<S>>::empty(),
            r.model() == CurveBasisContext::<S>::start_model(r.model()),
    {
        CurveBasisContext {
            line_state: 0,
            x0: S::of_int(0),
            x1: S::of_int(0),
            y0: S::of_int(0),
            y1: S::of_int(0),
            path: Vec::new(),
        }
    }

    fn size_hint(&self, points_count: usize) -> usize {
        points_count
    }
}

/// The mathematical state of a basis spline: the phase, the two buffered
/// points and the commands so far.
pub struct BasisModel<S> {
    pub state: int,
    pub x0: S,
    pub x1: S,
    pub y0: S,
    pub y1: S,
    pub path: Seq<PathCommand<S>>,
}

/// The curve segment a basis spline emits for one incoming point: control
/// points at thirds between the two buffered points, ending at their
/// one-four-one weighted average with the new point.
pub open spec fn basis_segment<S: Numeric>(m: BasisModel<S>, x: S, y: S) -> PathCommand<S> {
    PathCommand::BezierTo(
        S::of_int_spec(2).times_spec(m.x0).plus_spec(m.x1).over_spec(S::of_int_spec(3)),
        S::of_int_spec(2).times_spec(m.y0).plus_spec(m.y1).over_spec(S::of_int_spec(3)),
        m.x0.plus_spec(S::of_int_spec(2).times_spec(m.x1)).over_spec(S::of_int_spec(3)),
        m.y0.plus_spec(S::of_int_spec(2).times_spec(m.y1)).over_spec(S::of_int_spec(3)),
        m.x0.plus_spec(S::of_int_spec(4).times_spec(m.x1)).plus_spec(x).over_spec(
            S::of_int_spec(6),
        ),
        m.y0.plus_spec(S::of_int_spec(4).times_spec(m.y1)).plus_spec(y).over_spec(
            S::of_int_spec(6),
        ),
    )
}

/// What feeding a point does to a basis spline: the first point moves, the
/// second only buffers, the third first draws a line to the five-one
/// weighted start and from then on each point emits one curve segment.
pub open spec fn basis_point_model<S: Numeric>(m: BasisModel<S>, x: S, y: S) -> BasisModel<S> {
    let stepped = if m.state == 0 {
        BasisModel { state: 1, path: m.path.push(PathCommand::MoveTo(x, y)), ..m }
    } else if m.state == 1 {
        BasisModel { state: 2, ..m }
    } else if m.state == 2 {
        BasisModel {
            state: 3,
            path: m.path.push(
                PathCommand::LineTo(
                    S::of_int_spec(5).times_spec(m.x0).plus_spec(m.x1).over_spec(
                        S::of_int_spec(6),
                    ),
                    S::of_int_spec(5).times_spec(m.y0).plus_spec(m.y1).over_spec(
                        S::of_int_spec(6),
                    ),
                ),
            ).push(basis_segment(m, x, y)),
            ..m
        }
    } else {
        BasisModel { path: m.path.push(basis_segment(m, x, y)), ..m }
    };
    BasisModel { x0: stepped.x1, x1: x, y0: stepped.y1, y1: y, ..stepped }
}

/// What finishing a line does to a basis spline: with three or more points
/// a closing segment through the duplicated last point, then a line to it;
/// with exactly two points just the line; a single point closes onto
/// itself.
pub open spec fn basis_end_model<S: Numeric>(m: BasisModel<S>) -> BasisModel<S> {
    let m3 = if m.state == 3 {
        BasisModel { path: m.path.push(basis_segment(m, m.x1, m.y1)), ..m }
    } else {
        m
    };
    let m2 = if m.state == 2 || m.state == 3 {
        BasisModel { path: m3.path.push(PathCommand::LineTo(m3.x1, m3.y1)), ..m3 }
    } else {
        m3
    };
    let m1 = if m.state == 1 {
        BasisModel { path: m2.path.push(PathCommand::ClosePath), ..m2 }
    } else {
        m2
    };
    BasisModel { state: if m.state > 0 { m.state - 1 } else { 0 }, ..m1 }
}

/// The basis spline state machine.
#[derive(Debug)]
pub struct CurveBasisContext<S> {
    /// How many points of the current line have been seen, saturating at
    /// three.
    pub line_state: u8,
    /// The buffered point before last: x.
    pub x0: S,
    /// The buffered last point: x.
    pub x1: S,
    /// The buffered point before last: y.
    pub y0: S,
    /// The buffered last point: y.
    pub y1: S,
    /// The commands accumulated so far.
    pub path: Vec<PathCommand<S>>,
}

impl<S: Numeric> CurveBasisContext<S> {
    /// Emits one curve segment from the buffered window and the new point.
    fn basis_point(&mut self, x: S, y: S)
        ensures
            final(self).line_state == old(self).line_state,
            final(self).x0 == old(self).x0,
            final(self).x1 == old(self).x1,
            final(self).y0 == old(self).y0,
            final(self).y1 == old(self).y1,
            final(self).path@ == old(self).path@.push(basis_segment(old(self).model(), x, y)),
    {
        let c1x = S::of_int(2).times(self.x0).plus(self.x1).over(S::of_int(3));
        let c1y = S::of_int(2).times(self.y0).plus(self.y1).over(S::of_int(3));
        let c2x = self.x0.plus(S::of_int(2).times(self.x1)).over(S::of_int(3));
        let c2y = self.y0.plus(S::of_int(2).times(self.y1)).over(S::of_int(3));
        let ex = self.x0.plus(S::of_int(4).times(self.x1)).plus(x).over(S::of_int(6));
        let ey = self.y0.plus(S::of_int(4).times(self.y1)).plus(y).over(S::of_int(6));
        self.path.push(PathCommand::BezierTo(c1x, c1y, c2x, c2y, ex, ey));
    }
}

impl<S: Numeric> CurveContext<S> for CurveBasisContext<S> {
    type Model = BasisModel<S>;

    open spec fn model(self) -> BasisModel<S> {
        BasisModel {
            state: self.line_state as int,
            x0: self.x0,
            x1: self.x1,
            y0: self.y0,
            y1: self.y1,
            path: self.path@,
        }
    }

    open spec fn path_of(m: BasisModel<S>) -> Seq<PathCommand<S>> {
        m.path
    }

    open spec fn start_model(m: BasisModel<S>) -> BasisModel<S> {
        BasisModel { state: 0, ..m }
    }

    open spec fn point_model(m: BasisModel<S>, x: S, y: S) -> BasisModel<S> {
        basis_point_model(m, x, y)
    }

    open spec fn end_model(m: BasisModel<S>) -> BasisModel<S> {
        basis_end_model(m)
    }

    fn start_line(&mut self)
        ensures
            final(self).model() == Self::start_model(old(self).model()),
    {
        self.line_state = 0;
    }

    fn point(&mut self, x: S, y: S)
        ensures
            final(self).model() == Self::point_model(old(self).model(), x, y),
    {
        if self.line_state == 0 {
            self.line_state = 1;
            self.path.push(PathCommand::MoveTo(x, y));
        } else if self.line_state == 1 {
            self.line_state = 2;
        } else if self.line_state == 2 {
            self.line_state = 3;
            let lx = S::of_int(5).times(self.x0).plus(self.x1).over(S::of_int(6));
            let ly = S::of_int(5).times(self.y0).plus(self.y1).over(S::of_int(6));
            self.path.push(PathCommand::LineTo(lx, ly));
            self.basis_point(x, y);
        } else {
            self.basis_point(x, y);
        }
        self.x0 = self.x1;
        self.x1 = x;
        self.y0 = self.y1;
        self.y1 = y;
    }

    fn end_line(&mut self)
        ensures
            final(self).model() == Self::end_model(old(self).model()),
    {
        if self.line_state == 3 {
            let x1 = self.x1;
            let y1 = self.y1;
            self.basis_point(x1, y1);
        }
        if self.line_state == 2 || self.line_state == 3 {
            self.path.push(PathCommand::LineTo(self.x1, self.y1));
        }
        if self.line_state == 1 {
            self.path.push(PathCommand::ClosePath);
        }
        if self.line_state > 0 {
            self.line_state = self.line_state - 1;
        }
    }

    fn path(&self) -> (r: &Vec<PathCommand<S>>)
        ensures
            r@ == Self::path_of(self.model()),
    {
        &self.path
    }
}

/// A single point makes a basis spline close onto itself: a move followed
/// by a close.
pub proof fn lemma_basis_single_point<S: Numeric>(m: BasisModel<S>, x: S, y: S)
    requires
        m.path == Seq::<PathCommand<S>>::empty(),
        m.state == 0,
    ensures
        basis_end_model(basis_point_model(m, x, y)).path == seq![
            PathCommand::MoveTo(x, y),
            PathCommand::ClosePath,
        ],
{
    assert(basis_end_model(basis_point_model(m, x, y)).path =~= seq![
        PathCommand::MoveTo(x, y),
        PathCommand::ClosePath,
    ]);
}

} // verus!
