//! `CurveCardinal` produces a cubic cardinal spline using the specified
//! control points.
//!
//! The spline is created using the specified control points, with one-sided
//! differences used for the first and last piece. The default tension is
//! zero.

use crate::numeric::Numeric;
use crate::shape::curve::{CurveContext, CurveGenerator, PathCommand};
use vstd::prelude::*;

verus! {

/// The cardinal spline curve: a factory for cardinal contexts carrying a
/// tension.
#[derive(Clone, Copy, Debug)]
pub struct CurveCardinal<S> {
    /// How tightly the spline bends: zero is the classic Catmull-Rom shape.
    pub tension: S,
}

impl<S: Numeric> CurveCardinal<S> {
    /// A new cardinal spline curve with zero tension.
    pub fn new() -> (r: Self)
        ensures
            r.tension == S::of_int_spec(0),
    {
        Self { tension: S::of_int(0) }
    }

    /// A new cardinal spline curve with the given tension.
    pub fn with_tension(tension: S) -> (r: Self)
        ensures
            r.tension == tension,
    {
        Self { tension }
    }
}

impl<S: Numeric> CurveGenerator<S> for CurveCardinal<S> {
    type Context = CurveCardinalContext<S>;

    fn context(&self) -> (r: CurveCardinalContext<S>)
        ensures
            CurveCardinalContext::<S>::path_of(r.model()) == Seq::<PathCommand<S>>::empty(),
            r.model() == CurveCardinalContext::<S>::start_model(r.model()),
            r.tension == self.tension,
    {
        CurveCardinalContext {
            line_state: 0,
            x0: S::of_int(0),
            x1: S::of_int(0),
            x2: S::of_int(0),
            y0: S::of_int(0),
            y1: S::of_int(0),
            y2: S::of_int(0),
            tension: self.tension,
            path: Vec::new(),
        }
    }

    fn size_hint(&self, points_count: usize) -> usize {
        points_count
    }
}

/// The mathematical state of a cardinal spline: the phase, the three
/// buffered points, the tension and the commands so far.
pub struct CardinalModel<S> {
    pub state: int,
    pub x0: S,
    pub x1: S,
    pub x2: S,
    pub y0: S,
    pub y1: S,
    pub y2: S,
    pub tension: S,
    pub path: Seq<PathCommand<S>>,
}

/// The curve segment a cardinal spline emits for one incoming point:
/// control points offset from the buffered window by the tension
/// coefficient one minus tension over six.
pub open spec fn cardinal_segment<S: Numeric>(m: CardinalModel<S>, x: S, y: S) -> PathCommand<S> {
    let k = S::of_int_spec(1).minus_spec(m.tension).over_spec(S::of_int_spec(6));
    PathCommand::BezierTo(
        m.x1.plus_spec(k.times_spec(m.x2.minus_spec(m.x0))),
        m.y1.plus_spec(k.times_spec(m.y2.minus_spec(m.y0))),
        m.x2.plus_spec(k.times_spec(m.x1.minus_spec(x))),
        m.y2.plus_spec(k.times_spec(m.y1.minus_spec(y))),
        m.x2,
        m.y2,
    )
}

/// What feeding a point does to a cardinal spline: the first point moves,
/// the second buffers, and from the third point on each point emits one
/// curve segment; the window then slides.
pub open spec fn cardinal_point_model<S: Numeric>(m: CardinalModel<S>, x: S, y: S) -> CardinalModel<
    S,
> {
    let stepped = if m.state == 0 {
        CardinalModel { state: 1, path: m.path.push(PathCommand::MoveTo(x, y)), ..m }
    } else if m.state == 1 {
        CardinalModel { state: 2, x1: x, y1: y, ..m }
    } else if m.state == 2 {
        CardinalModel { state: 3, path: m.path.push(cardinal_segment(m, x, y)), ..m }
    } else {
        CardinalModel { path: m.path.push(cardinal_segment(m, x, y)), ..m }
    };
    CardinalModel {
        x0: stepped.x1,
        x1: stepped.x2,
        x2: x,
        y0: stepped.y1,
        y1: stepped.y2,
        y2: y,
        ..stepped
    }
}

/// What finishing a line does to a cardinal spline: with three or more
/// points a closing segment through the buffered middle point; with two a
/// line to the last; a single point closes onto itself.
pub open spec fn cardinal_end_model<S: Numeric>(m: CardinalModel<S>) -> CardinalModel<S> {
    let drawn = if m.state == 3 {
        CardinalModel { path: m.path.push(cardinal_segment(m, m.x1, m.y1)), ..m }
    } else if m.state == 2 {
        CardinalModel { path: m.path.push(PathCommand::LineTo(m.x2, m.y2)), ..m }
    } else if m.state == 1 {
        CardinalModel { path: m.path.push(PathCommand::ClosePath), ..m }
    } else {
        m
    };
    CardinalModel { state: if m.state > 0 { m.state - 1 } else { 0 }, ..drawn }
}

/// The cardinal spline state machine.
#[derive(Debug)]
pub struct CurveCardinalContext<S> {
    /// How many points of the current line have been seen, saturating at
    /// three.
    pub line_state: u8,
    /// The sliding window of the three most recent points: x values.
    pub x0: S,
    pub x1: S,
    pub x2: S,
    /// The sliding window of the three most recent points: y values.
    pub y0: S,
    pub y1: S,
    pub y2: S,
    /// How tightly the spline bends.
    pub tension: S,
    /// The commands accumulated so far.
    pub path: Vec<PathCommand<S>>,
}

impl<S: Numeric> CurveCardinalContext<S> {
    /// Emits one curve segment from the buffered window and the new point.
    fn cardinal_point(&mut self, x: S, y: S)
        ensures
            final(self).line_state == old(self).line_state,
            final(self).x0 == old(self).x0,
            final(self).x1 == old(self).x1,
            final(self).x2 == old(self).x2,
            final(self).y0 == old(self).y0,
            final(self).y1 == old(self).y1,
            final(self).y2 == old(self).y2,
            final(self).tension == old(self).tension,
            final(self).path@ == old(self).path@.push(cardinal_segment(old(self).model(), x, y)),
    {
        let k = S::of_int(1).minus(self.tension).over(S::of_int(6));
        let c1x = self.x1.plus(k.times(self.x2.minus(self.x0)));
        let c1y = self.y1.plus(k.times(self.y2.minus(self.y0)));
        let c2x = self.x2.plus(k.times(self.x1.minus(x)));
        let c2y = self.y2.plus(k.times(self.y1.minus(y)));
        self.path.push(PathCommand::BezierTo(c1x, c1y, c2x, c2y, self.x2, self.y2));
    }
}

impl<S: Numeric> CurveContext<S> for CurveCardinalContext<S> {
    type Model = CardinalModel<S>;

    open spec fn model(self) -> CardinalModel<S> {
        CardinalModel {
            state: self.line_state as int,
            x0: self.x0,
            x1: self.x1,
            x2: self.x2,
            y0: self.y0,
            y1: self.y1,
            y2: self.y2,
            tension: self.tension,
            path: self.path@,
        }
    }

    open spec fn path_of(m: CardinalModel<S>) -> Seq<PathCommand<S>> {
        m.path
    }

    open spec fn start_model(m: CardinalModel<S>) -> CardinalModel<S> {
        CardinalModel { state: 0, ..m }
    }

    open spec fn point_model(m: CardinalModel<S>, x: S, y: S) -> CardinalModel<S> {
        cardinal_point_model(m, x, y)
    }

    open spec fn end_model(m: CardinalModel<S>) -> CardinalModel<S> {
        cardinal_end_model(m)
    }

    fn start_line(&mut self)
        ensures
            final(self).model() == Self::start_model(old(self).model()),
    {
        self.line_state = 0;
    }

    fn point(&mut self, x: S, y: S)
        ensures
            final(self).model() == Self::point_model(old(self).model(), x, y),
    {
        if self.line_state == 0 {
            self.line_state = 1;
            self.path.push(PathCommand::MoveTo(x, y));
        } else if self.line_state == 1 {
            self.line_state = 2;
            self.x1 = x;
            self.y1 = y;
        } else if self.line_state == 2 {
            self.line_state = 3;
            self.cardinal_point(x, y);
        } else {
            self.cardinal_point(x, y);
        }
        self.x0 = self.x1;
        self.x1 = self.x2;
        self.x2 = x;
        self.y0 = self.y1;
        self.y1 = self.y2;
        self.y2 = y;
    }

    fn end_line(&mut self)
        ensures
            final(self).model() == Self::end_model(old(self).model()),
    {
        if self.line_state == 3 {
            let x1 = self.x1;
            let y1 = self.y1;
            self.cardinal_point(x1, y1);
        } else if self.line_state == 2 {
            self.path.push(PathCommand::LineTo(self.x2, self.y2));
        } else if self.line_state == 1 {
            self.path.push(PathCommand::ClosePath);
        }
        if self.line_state > 0 {
            self.line_state = self.line_state - 1;
        }
    }

    fn path(&self) -> (r: &Vec<PathCommand<S>>)
        ensures
            r@ == Self::path_of(self.model()),
    {
        &self.path
    }
}

} // verus!
