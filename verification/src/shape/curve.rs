//! Curves interpolate discrete data, typically for the purpose of drawing
//! lines.
//!
//! Each curve kind is a stateless factory handing out a fresh per-path
//! context; the context is a small state machine that is fed points one at a
//! time and accumulates path drawing commands. Every transition is described
//! exactly by a spec twin, so what a context will emit for a given point
//! sequence is a theorem, not a convention.

use crate::numeric::Numeric;
use vstd::prelude::*;

pub mod basis;
pub mod cardinal;
pub mod linear;
pub mod natural;
pub mod step;

verus! {

/// One drawing command of a path: move, straight line, cubic curve (two
/// control points, then the endpoint) or closing the current subpath.
#[derive(Clone, Copy, Debug)]
pub enum PathCommand<S> {
    MoveTo(S, S),
    LineTo(S, S),
    BezierTo(S, S, S, S, S, S),
    ClosePath,
}

/// The per-path state machine of a curve: points go in one at a time,
/// drawing commands accumulate. Each context abstracts to a mathematical
/// model, and every operation promises to take the model through exactly the
/// transition its spec twin names.
pub trait CurveContext<S: Numeric>: Sized {
    /// The mathematical state of the machine: the point memory and the
    /// commands emitted so far.
    type Model;

    /// This context's current model.
    spec fn model(self) -> Self::Model;

    /// The commands a model has accumulated.
    spec fn path_of(m: Self::Model) -> Seq<PathCommand<S>>;

    /// The model after a line is started.
    spec fn start_model(m: Self::Model) -> Self::Model;

    /// The model after one more point is fed.
    spec fn point_model(m: Self::Model, x: S, y: S) -> Self::Model;

    /// The model after the line is finished.
    spec fn end_model(m: Self::Model) -> Self::Model;

    /// Resets the point memory for a new line.
    fn start_line(&mut self)
        ensures
            final(self).model() == Self::start_model(old(self).model()),
    ;

    /// Feeds the next point of the current line.
    fn point(&mut self, x: S, y: S)
        ensures
            final(self).model() == Self::point_model(old(self).model(), x, y),
    ;

    /// Finishes the current line, emitting any trailing commands.
    fn end_line(&mut self)
        ensures
            final(self).model() == Self::end_model(old(self).model()),
    ;

    /// The accumulated path.
    fn path(&self) -> (r: &Vec<PathCommand<S>>)
        ensures
            r@ == Self::path_of(self.model()),
    ;
}

/// A stateless curve factory: hands out one fresh context per path.
pub trait CurveGenerator<S: Numeric> {
    /// The context this curve kind drives.
    type Context: CurveContext<S>;

    /// A fresh context: no commands yet, and already in its started state.
    fn context(&self) -> (r: Self::Context)
        ensures
            <Self::Context as CurveContext<S>>::path_of(r.model()) == Seq::<
                PathCommand<S>,
            >::empty(),
            r.model() == <Self::Context as CurveContext<S>>::start_model(r.model()),
    ;

    /// How many commands a path of `points_count` points may need.
    fn size_hint(&self, points_count: usize) -> (r: usize)
        ensures
            r == points_count,
    ;
}

} // verus!
