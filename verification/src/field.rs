//! Signed-distance fields over the plane: primitive shapes (half-planes,
//! circle, axis-aligned rectangle) and the constructive-solid-geometry
//! combinators union, intersection and inversion. A field is a tree whose
//! leaves are primitives; evaluating it at a point walks the tree once and
//! yields a dual-number distance whose sign classifies the point.

use vstd::prelude::*;
use crate::dual::Dual;
use crate::dual::DualModel;
use crate::dual::dual_max;
use crate::dual::dual_min;
use crate::dual::dual_neg;
use crate::dual::isqrt;
use crate::dual::isqrt_up;
use crate::dual::lemma_isqrt_at_most;
use crate::dual::lemma_isqrt_bounds;
use crate::dual::lemma_isqrt_up_bounds;
use crate::dual::lemma_trunc_div_bound;
use crate::dual::spec_isqrt;
use crate::dual::spec_isqrt_up;
use crate::dual::trunc_div;

verus! {

/// Largest magnitude allowed of a coordinate, an edge or a radius, chosen so
/// that no evaluation step can overflow a 64-bit signed integer.
pub const COORD_MAX: i64 = 1_000_000;

/// A coordinate within the range the evaluator accepts.
pub open spec fn coord_ok(c: int) -> bool {
    -(COORD_MAX as int) <= c <= COORD_MAX as int
}

/// A point of the plane.
#[derive(Clone, Copy, Debug, PartialEq, Eq)]
pub struct Point {
    pub x: i64,
    pub y: i64,
}

impl Point {
    /// Both coordinates are in range.
    pub open spec fn wf(self) -> bool {
        coord_ok(self.x as int) && coord_ok(self.y as int)
    }

    pub fn new(x: i64, y: i64) -> (p: Point)
        ensures
            p == (Point { x, y }),
    {
        Point { x, y }
    }
}

/// A signed-distance field: a tree of primitive shapes combined by union,
/// intersection and inversion. Each combinator owns its operands, so a shape
/// used in two branches is rebuilt from its parameters for each.
pub enum Sdf {
    /// The region left of the vertical line at `x`: distance `p.x - x`.
    Left(i64),
    /// The region right of the vertical line at `x`: distance `x - p.x`.
    Right(i64),
    /// The region below the horizontal line at `y`: distance `p.y - y`.
    Lower(i64),
    /// The region above the horizontal line at `y`: distance `y - p.y`.
    Upper(i64),
    /// The disc around a center: Euclidean distance to the center, minus the
    /// radius.
    Circle(Point, i64),
    /// The pointwise minimum of two fields.
    Union(Box<Sdf>, Box<Sdf>),
    /// The pointwise maximum of two fields.
    Intersection(Box<Sdf>, Box<Sdf>),
    /// The pointwise negation of a field.
    Invert(Box<Sdf>),
}

/// The root a circle takes of a squared center distance `s`: rounded away
/// from the circle's boundary — the floor root at or inside the radius'
/// square, the ceiling root beyond it — so that the root falls short of,
/// meets, or passes the radius exactly as `s` does its square.
pub open spec fn circle_root(s: int, r: int) -> int {
    if s <= r * r {
        spec_isqrt(s)
    } else {
        spec_isqrt_up(s)
    }
}

/// The distance a circle yields: the square root of the squared distance to
/// the center, rounded away from the boundary, minus the radius; negative
/// strictly inside, zero on the boundary, positive strictly outside. The
/// slope channel follows the chain rule through squares, sum and root,
/// dividing by twice the rounded root (zero when the root is zero).
pub open spec fn circle_eval(cx: int, cy: int, r: int, x: int, y: int) -> DualModel {
    let dx = cx - x;
    let dy = cy - y;
    let s = dx * dx + dy * dy;
    let root = circle_root(s, r);
    DualModel {
        v: root - r,
        d: if root == 0 {
            0
        } else {
            trunc_div(2 * dx + 2 * dy, 2 * root)
        },
    }
}

/// What a field yields at a point: the dual-number distance obtained by
/// folding minimum, maximum and negation over the primitive distances.
pub open spec fn eval(s: Sdf, x: int, y: int) -> DualModel
    decreases s,
{
    match s {
        Sdf::Left(e) => DualModel { v: x - e, d: 1 },
        Sdf::Right(e) => DualModel { v: e - x, d: 1 },
        Sdf::Lower(e) => DualModel { v: y - e, d: 1 },
        Sdf::Upper(e) => DualModel { v: e - y, d: 1 },
        Sdf::Circle(c, r) => circle_eval(c.x as int, c.y as int, r as int, x, y),
        Sdf::Union(a, b) => dual_min(eval(*a, x, y), eval(*b, x, y)),
        Sdf::Intersection(a, b) => dual_max(eval(*a, x, y), eval(*b, x, y)),
        Sdf::Invert(a) => dual_neg(eval(*a, x, y)),
    }
}

impl Sdf {
    /// Every parameter in the tree is in range.
    pub open spec fn wf(self) -> bool
        decreases self,
    {
        match self {
            Sdf::Left(e) => coord_ok(e as int),
            Sdf::Right(e) => coord_ok(e as int),
            Sdf::Lower(e) => coord_ok(e as int),
            Sdf::Upper(e) => coord_ok(e as int),
            Sdf::Circle(c, r) => c.wf() && coord_ok(r as int),
            Sdf::Union(a, b) => a.wf() && b.wf(),
            Sdf::Intersection(a, b) => a.wf() && b.wf(),
            Sdf::Invert(a) => a.wf(),
        }
    }
}

/// Every intermediate quantity of one circle evaluation stays well within
/// 64-bit range when the parameters and the point are in range: each square
/// is at most 4·10^12, the radius' square at most 10^12, the rounded root at
/// most 3·10^6, and the value and slope within the general evaluation
/// bounds.
pub proof fn lemma_circle_range(cx: int, cy: int, r: int, x: int, y: int)
    requires
        coord_ok(cx),
        coord_ok(cy),
        coord_ok(r),
        coord_ok(x),
        coord_ok(y),
    ensures
        ({
            let dx = cx - x;
            let dy = cy - y;
            let s = dx * dx + dy * dy;
            &&& 0 <= dx * dx <= 4_000_000_000_000
            &&& 0 <= dy * dy <= 4_000_000_000_000
            &&& 0 <= r * r <= 1_000_000_000_000
            &&& 0 <= circle_root(s, r) <= 3_000_000
            &&& -4 * (COORD_MAX as int) <= circle_eval(cx, cy, r, x, y).v <= 4 * (COORD_MAX as int)
            &&& -8 * (COORD_MAX as int) <= circle_eval(cx, cy, r, x, y).d <= 8 * (COORD_MAX as int)
        }),
{
    let c_lim = COORD_MAX as int;
    let dx = cx - x;
    let dy = cy - y;
    let s = dx * dx + dy * dy;
    assert(0 <= dx * dx <= 4 * c_lim * c_lim) by (nonlinear_arith)
        requires
            -2 * c_lim <= dx <= 2 * c_lim,
            c_lim == 1_000_000,
    ;
    assert(0 <= dy * dy <= 4 * c_lim * c_lim) by (nonlinear_arith)
        requires
            -2 * c_lim <= dy <= 2 * c_lim,
            c_lim == 1_000_000,
    ;
    assert(0 <= r * r <= c_lim * c_lim) by (nonlinear_arith)
        requires
            -c_lim <= r <= c_lim,
            c_lim == 1_000_000,
    ;
    if s <= r * r {
        lemma_isqrt_bounds(s);
        assert(s < (3_000_000 + 1) * (3_000_000 + 1)) by (nonlinear_arith)
            requires
                s <= 8_000_000_000_000,
        ;
        lemma_isqrt_at_most(s, 3_000_000);
    } else {
        lemma_isqrt_up_bounds(s);
        lemma_isqrt_bounds(s - 1);
        assert(s - 1 < (2_999_999 + 1) * (2_999_999 + 1)) by (nonlinear_arith)
            requires
                s <= 8_000_000_000_000,
        ;
        lemma_isqrt_at_most(s - 1, 2_999_999);
    }
    let root = circle_root(s, r);
    if root != 0 {
        lemma_trunc_div_bound(2 * dx + 2 * dy, 2 * root);
    }
}

/// On an in-range tree and point, the distance stays within four times the
/// coordinate limit and the slope within eight times, so every evaluation
/// step fits a 64-bit signed integer.
pub proof fn lemma_eval_in_range(s: Sdf, x: int, y: int)
    requires
        s.wf(),
        coord_ok(x),
        coord_ok(y),
    ensures
        -4 * (COORD_MAX as int) <= eval(s, x, y).v <= 4 * (COORD_MAX as int),
        -8 * (COORD_MAX as int) <= eval(s, x, y).d <= 8 * (COORD_MAX as int),
    decreases s,
{
    match s {
        Sdf::Left(_) => {},
        Sdf::Right(_) => {},
        Sdf::Lower(_) => {},
        Sdf::Upper(_) => {},
        Sdf::Circle(c, r) => {
            lemma_circle_range(c.x as int, c.y as int, r as int, x, y);
        },
        Sdf::Union(a, b) => {
            lemma_eval_in_range(*a, x, y);
            lemma_eval_in_range(*b, x, y);
        },
        Sdf::Intersection(a, b) => {
            lemma_eval_in_range(*a, x, y);
            lemma_eval_in_range(*b, x, y);
        },
        Sdf::Invert(a) => {
            lemma_eval_in_range(*a, x, y);
        },
    }
}

impl Sdf {
    /// The dual-number distance from this field at a point: the sign
    /// classifies the point (negative inside, zero on the boundary, positive
    /// outside), and the slope channel carries the derivative.
    pub fn distance(&self, p: &Point) -> (r: Dual)
        requires
            self.wf(),
            p.wf(),
        ensures
            r@ == eval(*self, p.x as int, p.y as int),
        decreases *self,
    {
        match self {
            Sdf::Left(e) => Dual::var(p.x - *e),
            Sdf::Right(e) => Dual::var(*e - p.x),
            Sdf::Lower(e) => Dual::var(p.y - *e),
            Sdf::Upper(e) => Dual::var(*e - p.y),
            Sdf::Circle(c, r) => {
                proof {
                    lemma_circle_range(c.x as int, c.y as int, *r as int, p.x as int, p.y as int);
                }
                let dx = c.x - p.x;
                let dy = c.y - p.y;
                let qx = Dual::var(dx).sqr();
                let qy = Dual::var(dy).sqr();
                let sq = qx.add(qy);
                let rsq = *r * *r;
                let root = if sq.v <= rsq {
                    isqrt(sq.v)
                } else {
                    isqrt_up(sq.v)
                };
                let slope: i64 = if root == 0 {
                    0
                } else {
                    let den = 2 * root;
                    proof {
                        lemma_trunc_div_bound(sq@.d, 2 * root as int);
                    }
                    if sq.d >= 0 {
                        sq.d / den
                    } else {
                        -((-sq.d) / den)
                    }
                };
                Dual { v: root - *r, d: slope }
            },
            Sdf::Union(a, b) => {
                let da = a.distance(p);
                let db = b.distance(p);
                da.min(db)
            },
            Sdf::Intersection(a, b) => {
                let da = a.distance(p);
                let db = b.distance(p);
                da.max(db)
            },
            Sdf::Invert(a) => {
                let da = a.distance(p);
                proof {
                    lemma_eval_in_range(**a, p.x as int, p.y as int);
                }
                da.neg()
            },
        }
    }

    /// The union of two fields: at every point, the smaller of the two
    /// distances (the point more inside either shape wins). Consumes both
    /// operands.
    pub fn union(self, other: Sdf) -> (r: Sdf)
        ensures
            r == Sdf::Union(Box::new(self), Box::new(other)),
            forall|x: int, y: int|
                #[trigger] eval(r, x, y) == dual_min(eval(self, x, y), eval(other, x, y)),
            r.wf() <==> self.wf() && other.wf(),
    {
        Sdf::Union(Box::new(self), Box::new(other))
    }

    /// The intersection of two fields: at every point, the larger of the two
    /// distances (the point must be inside both shapes). Consumes both
    /// operands.
    pub fn intersection(self, other: Sdf) -> (r: Sdf)
        ensures
            r == Sdf::Intersection(Box::new(self), Box::new(other)),
            forall|x: int, y: int|
                #[trigger] eval(r, x, y) == dual_max(eval(self, x, y), eval(other, x, y)),
            r.wf() <==> self.wf() && other.wf(),
    {
        Sdf::Intersection(Box::new(self), Box::new(other))
    }

    /// The inversion of a field: at every point, the negated distance, which
    /// swaps inside and outside. Consumes its operand.
    pub fn invert(self) -> (r: Sdf)
        ensures
            r == Sdf::Invert(Box::new(self)),
            forall|x: int, y: int| #[trigger] eval(r, x, y) == dual_neg(eval(self, x, y)),
            r.wf() <==> self.wf(),
    {
        Sdf::Invert(Box::new(self))
    }
}

/// The distance an axis-aligned rectangle yields: the largest of the four
/// bounding half-plane distances. Near a corner this is not the Euclidean
/// distance to the rectangle; the larger axis distance stands in for it.
pub open spec fn rect_eval(x0: int, y0: int, x1: int, y1: int, x: int, y: int) -> DualModel {
    dual_max(
        dual_max(
            dual_max(DualModel { v: x0 - x, d: 1 }, DualModel { v: x - x1, d: 1 }),
            DualModel { v: y0 - y, d: 1 },
        ),
        DualModel { v: y - y1, d: 1 },
    )
}

/// Factory for the primitive shapes.
pub struct Shape;

impl Shape {
    /// The disc of the given radius around `center`: Euclidean distance to
    /// the center minus the radius, negative inside, zero on the boundary.
    pub fn circle(center: Point, radius: i64) -> (r: Sdf)
        ensures
            r == Sdf::Circle(center, radius),
            forall|x: int, y: int|
                #[trigger] eval(r, x, y) == circle_eval(
                    center.x as int,
                    center.y as int,
                    radius as int,
                    x,
                    y,
                ),
            r.wf() <==> center.wf() && coord_ok(radius as int),
    {
        Sdf::Circle(center, radius)
    }

    /// The axis-aligned rectangle `[min.x, max.x] x [min.y, max.y]`, built as
    /// the intersection of its four bounding half-planes.
    pub fn rectangle(min: Point, max: Point) -> (r: Sdf)
        ensures
            forall|x: int, y: int|
                #[trigger] eval(r, x, y) == rect_eval(
                    min.x as int,
                    min.y as int,
                    max.x as int,
                    max.y as int,
                    x,
                    y,
                ),
            r.wf() <==> min.wf() && max.wf(),
    {
        Shape::right(min.x)
            .intersection(Shape::left(max.x))
            .intersection(Shape::upper(min.y))
            .intersection(Shape::lower(max.y))
    }

    /// The half-plane left of the vertical line at `x`: distance `p.x - x`.
    pub fn left(x: i64) -> (r: Sdf)
        ensures
            r == Sdf::Left(x),
            forall|px: int, py: int|
                #[trigger] eval(r, px, py) == (DualModel { v: px - x, d: 1 }),
            r.wf() <==> coord_ok(x as int),
    {
        Sdf::Left(x)
    }

    /// The half-plane right of the vertical line at `x`: distance `x - p.x`.
    pub fn right(x: i64) -> (r: Sdf)
        ensures
            r == Sdf::Right(x),
            forall|px: int, py: int|
                #[trigger] eval(r, px, py) == (DualModel { v: x - px, d: 1 }),
            r.wf() <==> coord_ok(x as int),
    {
        Sdf::Right(x)
    }

    /// The half-plane below the horizontal line at `y`: distance `p.y - y`.
    pub fn lower(y: i64) -> (r: Sdf)
        ensures
            r == Sdf::Lower(y),
            forall|px: int, py: int|
                #[trigger] eval(r, px, py) == (DualModel { v: py - y, d: 1 }),
            r.wf() <==> coord_ok(y as int),
    {
        Sdf::Lower(y)
    }

    /// The half-plane above the horizontal line at `y`: distance `y - p.y`.
    pub fn upper(y: i64) -> (r: Sdf)
        ensures
            r == Sdf::Upper(y),
            forall|px: int, py: int|
                #[trigger] eval(r, px, py) == (DualModel { v: y - py, d: 1 }),
            r.wf() <==> coord_ok(y as int),
    {
        Sdf::Upper(y)
    }
}

} // verus!
