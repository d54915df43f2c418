//! `CurveNatural` produces a natural cubic spline with the second derivative
//! of the spline set to zero at the endpoints.
//!
//! Unlike the other curves this one buffers the whole line and emits
//! everything when the line is finished: the control points come from a
//! forward/backward sweep over one tridiagonal system per axis.

use crate::numeric::Numeric;
use crate::shape::curve::{CurveContext, CurveGenerator, PathCommand};
use vstd::prelude::*;

verus! {

/// The natural spline curve: a factory for natural contexts.
#[derive(Clone, Copy, Debug)]
pub struct CurveNatural {}

impl CurveNatural {
    /// A new natural spline curve.
    pub fn new() -> (r: Self)
        ensures
            r == (CurveNatural {  }),
    {
        Self {  }
    }
}

impl<S: Numeric> CurveGenerator<S> for CurveNatural {
    type Context = CurveNaturalContext<S>;

    fn context(&self) -> (r: CurveNaturalContext<S>)
        ensures
            CurveNaturalContext::<S>::path_of(r.model()) == Seq::<PathCommand<S>>::empty(),
            r.model() == CurveNaturalContext::<S>::start_model(r.model()),
    {
        let r = CurveNaturalContext { points: Vec::new(), path: Vec::new() };
        proof {
            assert(r.model() =~~= CurveNaturalContext::<S>::start_model(r.model()));
        }
        r
    }

    fn size_hint(&self, points_count: usize) -> usize {
        points_count
    }
}

/// The sub-diagonal entry of the spline system, before the sweep.
pub open spec fn nat_a0<S: Numeric>(n: int, i: int) -> S {
    if i == n - 1 {
        S::of_int_spec(2)
    } else if i == 0 {
        S::of_int_spec(0)
    } else {
        S::of_int_spec(1)
    }
}

/// The diagonal entry of the spline system, before the sweep.
pub open spec fn nat_b0<S: Numeric>(n: int, i: int) -> S {
    if i == n - 1 {
        S::of_int_spec(7)
    } else if i == 0 {
        S::of_int_spec(2)
    } else {
        S::of_int_spec(4)
    }
}

/// The right-hand side of the spline system, before the sweep.
pub open spec fn nat_r0<S: Numeric>(v: Seq<S>, n: int, i: int) -> S {
    if i == n - 1 {
        S::of_int_spec(8).times_spec(v[n - 1]).plus_spec(v[n])
    } else if i == 0 {
        v[0].plus_spec(S::of_int_spec(2).times_spec(v[1]))
    } else {
        S::of_int_spec(4).times_spec(v[i]).plus_spec(S::of_int_spec(2).times_spec(v[i + 1]))
    }
}

/// The diagonal after the forward elimination sweep.
pub open spec fn nat_bf<S: Numeric>(v: Seq<S>, n: int, i: int) -> S
    decreases i,
{
    if i <= 0 {
        nat_b0::<S>(n, 0)
    } else {
        nat_b0::<S>(n, i).minus_spec(nat_a0::<S>(n, i).over_spec(nat_bf(v, n, i - 1)))
    }
}

/// The right-hand side after the forward elimination sweep.
pub open spec fn nat_rf<S: Numeric>(v: Seq<S>, n: int, i: int) -> S
    decreases i,
{
    if i <= 0 {
        nat_r0(v, n, 0)
    } else {
        nat_r0(v, n, i).minus_spec(
            nat_a0::<S>(n, i).over_spec(nat_bf(v, n, i - 1)).times_spec(nat_rf(v, n, i - 1)),
        )
    }
}

/// The first control-point coordinates, from the backward substitution.
pub open spec fn nat_ctrl_a<S: Numeric>(v: Seq<S>, n: int, i: int) -> S
    decreases n - i,
{
    if i >= n - 1 {
        nat_rf(v, n, n - 1).over_spec(nat_bf(v, n, n - 1))
    } else {
        nat_rf(v, n, i).minus_spec(nat_ctrl_a(v, n, i + 1)).over_spec(nat_bf(v, n, i))
    }
}

/// The second control-point coordinates, mirrored off the first.
pub open spec fn nat_ctrl_b<S: Numeric>(v: Seq<S>, n: int, i: int) -> S {
    if i == n - 1 {
        v[n].plus_spec(nat_ctrl_a(v, n, n - 1)).over_spec(S::of_int_spec(2))
    } else {
        S::of_int_spec(2).times_spec(v[i + 1]).minus_spec(nat_ctrl_a(v, n, i + 1))
    }
}

/// The curve segments of a natural spline through the buffered points, from
/// segment `i` on.
pub open spec fn nat_segments<S: Numeric>(xs: Seq<S>, ys: Seq<S>, i: int) -> Seq<PathCommand<S>>
    decreases xs.len() - i,
{
    let n = xs.len() as int - 1;
    if i > n || i < 1 {
        Seq::empty()
    } else {
        seq![
            PathCommand::BezierTo(
                nat_ctrl_a(xs, n, i - 1),
                nat_ctrl_a(ys, n, i - 1),
                nat_ctrl_b(xs, n, i - 1),
                nat_ctrl_b(ys, n, i - 1),
                xs[i],
                ys[i],
            ),
        ].add(nat_segments(xs, ys, i + 1))
    }
}

/// The mathematical state of a natural spline: the buffered points and the
/// commands so far.
#[verifier::ext_equal]
pub struct NaturalModel<S> {
    pub xs: Seq<S>,
    pub ys: Seq<S>,
    pub path: Seq<PathCommand<S>>,
}

/// What finishing a line does to a natural spline: nothing for an empty
/// line; a self-closing loop for one point; a plain straight line for two —
/// no spline math is invoked below three points; otherwise a move and the
/// solved curve segments. The point buffer empties either way.
pub open spec fn natural_end_model<S: Numeric>(m: NaturalModel<S>) -> NaturalModel<S> {
    let n = m.xs.len() as int;
    let path = if n == 0 {
        m.path
    } else if n == 1 {
        m.path.push(PathCommand::MoveTo(m.xs[0], m.ys[0])).push(PathCommand::ClosePath)
    } else if n == 2 {
        m.path.push(PathCommand::MoveTo(m.xs[0], m.ys[0])).push(
            PathCommand::LineTo(m.xs[1], m.ys[1]),
        )
    } else {
        m.path.push(PathCommand::MoveTo(m.xs[0], m.ys[0])).add(nat_segments(m.xs, m.ys, 1))
    };
    NaturalModel { xs: Seq::empty(), ys: Seq::empty(), path }
}

/// The natural spline state machine.
#[derive(Debug)]
pub struct CurveNaturalContext<S> {
    /// The buffered points of the current line.
    points: Vec<(S, S)>,
    /// The commands accumulated so far.
    path: Vec<PathCommand<S>>,
}

/// Solves one axis of the natural spline system: the two control-point
/// coordinate arrays for `n` points, by the forward/backward sweep.
fn control_points<S: Numeric>(v: &Vec<S>) -> (r: (Vec<S>, Vec<S>))
    requires
        v.len() >= 2,
    ensures
        r.0.len() == v.len() - 1,
        r.1.len() == v.len() - 1,
        forall|i: int|
            0 <= i < v.len() - 1 ==> r.0@[i] == nat_ctrl_a(v@, v.len() - 1, i) && r.1@[i]
                == nat_ctrl_b(v@, v.len() - 1, i),
{
    let n = v.len() - 1;
    let ghost gn = n as int;
    let mut bf: Vec<S> = Vec::new();
    let mut rf: Vec<S> = Vec::new();
    if n == 1 {
        bf.push(S::of_int(7));
    } else {
        bf.push(S::of_int(2));
    }
    rf.push(first_rhs(v, n));
    proof {
        assert(bf@[0] == nat_bf(v@, gn, 0));
        assert(rf@[0] == nat_rf(v@, gn, 0));
    }
    let mut i: usize = 1;
    while i < n
        invariant
            1 <= i <= n,
            n + 1 == v.len(),
            n >= 1,
            bf.len() == i,
            rf.len() == i,
            forall|j: int| 0 <= j < i ==> bf@[j] == nat_bf(v@, n as int, j),
            forall|j: int| 0 <= j < i ==> rf@[j] == nat_rf(v@, n as int, j),
        decreases n - i,
    {
        let a: S = sub_diag(n, i);
        let b: S = diag(n, i);
        let r0: S = rhs(v, n, i);
        let m = a.over(bf[i - 1]);
        bf.push(b.minus(m));
        rf.push(r0.minus(m.times(rf[i - 1])));
        i = i + 1;
    }
    let mut av: Vec<S> = Vec::new();
    let mut k: usize = 0;
    while k < n
        invariant
            0 <= k <= n,
            av.len() == k,
        decreases n - k,
    {
        av.push(S::of_int(0));
        k = k + 1;
    }
    av[n - 1] = rf[n - 1].over(bf[n - 1]);
    let mut j: usize = n - 1;
    while j > 0
        invariant
            0 <= j <= n - 1,
            n + 1 == v.len(),
            av.len() == n,
            bf.len() == n,
            rf.len() == n,
            forall|q: int| 0 <= q < n ==> bf@[q] == nat_bf(v@, n as int, q),
            forall|q: int| 0 <= q < n ==> rf@[q] == nat_rf(v@, n as int, q),
            forall|q: int| j <= q < n ==> av@[q] == nat_ctrl_a(v@, n as int, q),
        decreases j,
    {
        j = j - 1;
        av[j] = rf[j].minus(av[j + 1]).over(bf[j]);
    }
    let mut bv: Vec<S> = Vec::new();
    let mut p: usize = 0;
    while p < n
        invariant
            0 <= p <= n,
            n + 1 == v.len(),
            av.len() == n,
            bv.len() == p,
            forall|q: int| 0 <= q < n ==> av@[q] == nat_ctrl_a(v@, n as int, q),
            forall|q: int| 0 <= q < p ==> bv@[q] == nat_ctrl_b(v@, n as int, q),
        decreases n - p,
    {
        if p == n - 1 {
            bv.push(v[n].plus(av[n - 1]).over(S::of_int(2)));
        } else {
            bv.push(S::of_int(2).times(v[p + 1]).minus(av[p + 1]));
        }
        p = p + 1;
    }
    (av, bv)
}

/// The first right-hand-side entry of the spline system.
fn first_rhs<S: Numeric>(v: &Vec<S>, n: usize) -> (r: S)
    requires
        v.len() == n + 1,
        n >= 1,
    ensures
        r == nat_r0(v@, n as int, 0),
{
    if n == 1 {
        S::of_int(8).times(v[0]).plus(v[1])
    } else {
        v[0].plus(S::of_int(2).times(v[1]))
    }
}

/// The sub-diagonal entry of the spline system.
fn sub_diag<S: Numeric>(n: usize, i: usize) -> (r: S)
    requires
        1 <= i < n,
    ensures
        r == nat_a0::<S>(n as int, i as int),
{
    if i == n - 1 {
        S::of_int(2)
    } else {
        S::of_int(1)
    }
}

/// The diagonal entry of the spline system.
fn diag<S: Numeric>(n: usize, i: usize) -> (r: S)
    requires
        1 <= i < n,
    ensures
        r == nat_b0::<S>(n as int, i as int),
{
    if i == n - 1 {
        S::of_int(7)
    } else {
        S::of_int(4)
    }
}

/// The right-hand-side entry of the spline system.
fn rhs<S: Numeric>(v: &Vec<S>, n: usize, i: usize) -> (r: S)
    requires
        v.len() == n + 1,
        1 <= i < n,
    ensures
        r == nat_r0(v@, n as int, i as int),
{
    if i == n - 1 {
        S::of_int(8).times(v[n - 1]).plus(v[n])
    } else {
        S::of_int(4).times(v[i]).plus(S::of_int(2).times(v[i + 1]))
    }
}

impl<S: Numeric> CurveContext<S> for CurveNaturalContext<S> {
    type Model = NaturalModel<S>;

    closed spec fn model(self) -> NaturalModel<S> {
        NaturalModel {
            xs: self.points@.map_values(|p: (S, S)| p.0),
            ys: self.points@.map_values(|p: (S, S)| p.1),
            path: self.path@,
        }
    }

    open spec fn path_of(m: NaturalModel<S>) -> Seq<PathCommand<S>> {
        m.path
    }

    open spec fn start_model(m: NaturalModel<S>) -> NaturalModel<S> {
        NaturalModel { xs: Seq::empty(), ys: Seq::empty(), ..m }
    }

    open spec fn point_model(m: NaturalModel<S>, x: S, y: S) -> NaturalModel<S> {
        NaturalModel { xs: m.xs.push(x), ys: m.ys.push(y), ..m }
    }

    open spec fn end_model(m: NaturalModel<S>) -> NaturalModel<S> {
        natural_end_model(m)
    }

    fn start_line(&mut self)
        ensures
            final(self).model() == Self::start_model(old(self).model()),
    {
        self.points = Vec::new();
        proof {
            assert(self.model() =~~= Self::start_model(old(self).model()));
        }
    }

    fn point(&mut self, x: S, y: S)
        ensures
            final(self).model() == Self::point_model(old(self).model(), x, y),
    {
        self.points.push((x, y));
        proof {
            assert(self.model().xs =~= Self::point_model(old(self).model(), x, y).xs);
            assert(self.model().ys =~= Self::point_model(old(self).model(), x, y).ys);
        }
    }

    fn end_line(&mut self)
        ensures
            final(self).model() == Self::end_model(old(self).model()),
    {
        let ghost gxs = self.model().xs;
        let ghost gys = self.model().ys;
        let n = self.points.len();
        if n == 1 {
            self.path.push(PathCommand::MoveTo(self.points[0].0, self.points[0].1));
            self.path.push(PathCommand::ClosePath);
        } else if n == 2 {
            self.path.push(PathCommand::MoveTo(self.points[0].0, self.points[0].1));
            self.path.push(PathCommand::LineTo(self.points[1].0, self.points[1].1));
        } else if n > 2 {
            self.path.push(PathCommand::MoveTo(self.points[0].0, self.points[0].1));
            let mut xs: Vec<S> = Vec::new();
            let mut ys: Vec<S> = Vec::new();
            let mut k: usize = 0;
            while k < n
                invariant
                    0 <= k <= n,
                    n == self.points.len(),
                    gxs == self.points@.map_values(|p: (S, S)| p.0),
                    gys == self.points@.map_values(|p: (S, S)| p.1),
                    xs@ =~= gxs.take(k as int),
                    ys@ =~= gys.take(k as int),
                decreases n - k,
            {
                xs.push(self.points[k].0);
                ys.push(self.points[k].1);
                k = k + 1;
            }
            proof {
                assert(xs@ =~= gxs);
                assert(ys@ =~= gys);
            }
            let px = control_points(&xs);
            let py = control_points(&ys);
            let ghost pre = self.path@;
            let mut i1: usize = 1;
            while i1 < n
                invariant
                    1 <= i1 <= n,
                    n == self.points.len(),
                    n >= 3,
                    xs@ == gxs && ys@ == gys,
                    xs.len() == n && ys.len() == n,
                    gxs == self.points@.map_values(|p: (S, S)| p.0),
                    gys == self.points@.map_values(|p: (S, S)| p.1),
                    px.0.len() == n - 1 && px.1.len() == n - 1,
                    py.0.len() == n - 1 && py.1.len() == n - 1,
                    forall|q: int|
                        0 <= q < n - 1 ==> px.0@[q] == nat_ctrl_a(gxs, n - 1, q) && px.1@[q]
                            == nat_ctrl_b(gxs, n - 1, q),
                    forall|q: int|
                        0 <= q < n - 1 ==> py.0@[q] == nat_ctrl_a(gys, n - 1, q) && py.1@[q]
                            == nat_ctrl_b(gys, n - 1, q),
                    self.path@ =~= pre.add(nat_segments(gxs, gys, 1)).take(pre.len() + i1 - 1),
                decreases n - i1,
            {
                proof {
                    lemma_nat_segments_len(gxs, gys, 1);
                    lemma_nat_segments_index(gxs, gys, 1, i1 as int);
                }
                let i0 = i1 - 1;
                self.path.push(
                    PathCommand::BezierTo(px.0[i0], py.0[i0], px.1[i0], py.1[i0], xs[i1], ys[i1]),
                );
                i1 = i1 + 1;
            }
            proof {
                lemma_nat_segments_len(gxs, gys, 1);
                assert(self.path@ =~= pre.add(nat_segments(gxs, gys, 1)));
            }
        }
        self.points = Vec::new();
        proof {
            assert(self.model() =~~= Self::end_model(old(self).model()));
        }
    }

    fn path(&self) -> (r: &Vec<PathCommand<S>>)
        ensures
            r@ == Self::path_of(self.model()),
    {
        &self.path
    }
}

/// How many segments a natural spline emits from segment `i` on.
pub proof fn lemma_nat_segments_len<S: Numeric>(xs: Seq<S>, ys: Seq<S>, i: int)
    requires
        1 <= i,
    ensures
        nat_segments(xs, ys, i).len() == if i > xs.len() - 1 {
            0
        } else {
            xs.len() - i
        },
    decreases xs.len() - i,
{
    if i <= xs.len() - 1 {
        lemma_nat_segments_len(xs, ys, i + 1);
    }
}

/// The segment at position `k` of a natural spline's emitted run.
pub proof fn lemma_nat_segments_index<S: Numeric>(xs: Seq<S>, ys: Seq<S>, i: int, k: int)
    requires
        1 <= i <= k <= xs.len() - 1,
    ensures
        nat_segments(xs, ys, i).len() > k - i,
        nat_segments(xs, ys, i)[k - i] == (PathCommand::BezierTo(
            nat_ctrl_a(xs, xs.len() - 1, k - 1),
            nat_ctrl_a(ys, xs.len() - 1, k - 1),
            nat_ctrl_b(xs, xs.len() - 1, k - 1),
            nat_ctrl_b(ys, xs.len() - 1, k - 1),
            xs[k],
            ys[k],
        )),
    decreases k - i,
{
    lemma_nat_segments_len(xs, ys, i);
    if i < k {
        lemma_nat_segments_index(xs, ys, i + 1, k);
    }
}

/// With exactly two points no spline math is invoked: the output is a move
/// and a plain straight line.
pub proof fn lemma_natural_two_points<S: Numeric>(m: NaturalModel<S>, x1: S, y1: S, x2: S, y2: S)
    requires
        m.path == Seq::<PathCommand<S>>::empty(),
        m.xs.len() == 0,
        m.ys.len() == 0,
    ensures
        ({
            let fed = CurveNaturalContext::<S>::point_model(
                CurveNaturalContext::<S>::point_model(m, x1, y1),
                x2,
                y2,
            );
            natural_end_model(fed).path == seq![
                PathCommand::MoveTo(x1, y1),
                PathCommand::LineTo(x2, y2),
            ]
        }),
{
    let fed = CurveNaturalContext::<S>::point_model(
        CurveNaturalContext::<S>::point_model(m, x1, y1),
        x2,
        y2,
    );
    assert(natural_end_model(fed).path =~= seq![
        PathCommand::MoveTo(x1, y1),
        PathCommand::LineTo(x2, y2),
    ]);
}

} // verus!
