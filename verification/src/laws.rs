//! Laws of the field algebra, proved for every field and every point of the
//! plane.

use vstd::prelude::*;
use crate::dual::dual_neg;
use crate::dual::lemma_isqrt_at_least;
use crate::dual::lemma_isqrt_at_most;
use crate::dual::lemma_isqrt_bounds;
use crate::dual::lemma_isqrt_up_at_least;
use crate::field::Point;
use crate::field::Sdf;
use crate::field::eval;

verus! {

/// Double inversion is a no-op: inverting a field twice leaves its value and
/// slope unchanged at every point.
pub proof fn lemma_double_invert(s: Sdf, x: int, y: int)
    ensures
        eval(Sdf::Invert(Box::new(Sdf::Invert(Box::new(s)))), x, y) == eval(s, x, y),
{
    let once = Sdf::Invert(Box::new(s));
    assert(eval(once, x, y) == dual_neg(eval(s, x, y)));
    assert(eval(Sdf::Invert(Box::new(once)), x, y) == dual_neg(eval(once, x, y)));
}

/// Intersecting a field with a twice-inverted copy of a field is the same as
/// intersecting it with the copy itself, at every point.
pub proof fn lemma_intersection_double_invert(a: Sdf, b: Sdf, x: int, y: int)
    ensures
        eval(
            Sdf::Intersection(Box::new(a), Box::new(Sdf::Invert(Box::new(Sdf::Invert(Box::new(b)))))),
            x,
            y,
        ) == eval(Sdf::Intersection(Box::new(a), Box::new(b)), x, y),
{
    lemma_double_invert(b, x, y);
}

/// Union is commutative in its value: the minimum of two distances does not
/// depend on operand order. Only the value channel is claimed: on an exact
/// tie each order keeps its first operand's slope, and the two slopes may
/// differ.
pub proof fn lemma_union_commutes(a: Sdf, b: Sdf, x: int, y: int)
    ensures
        eval(Sdf::Union(Box::new(a), Box::new(b)), x, y).v == eval(
            Sdf::Union(Box::new(b), Box::new(a)),
            x,
            y,
        ).v,
{
}

/// Intersection is commutative in its value: the maximum of two distances
/// does not depend on operand order. Only the value channel is claimed, as
/// for union.
pub proof fn lemma_intersection_commutes(a: Sdf, b: Sdf, x: int, y: int)
    ensures
        eval(Sdf::Intersection(Box::new(a), Box::new(b)), x, y).v == eval(
            Sdf::Intersection(Box::new(b), Box::new(a)),
            x,
            y,
        ).v,
{
}

/// The sign of a circle's distance classifies the point against the circle
/// exactly: strictly inside, the value lies in `[-r, 0)`; on the boundary it
/// is zero; strictly outside, it is strictly positive.
pub proof fn lemma_circle_sign(c: Point, r: i64, x: int, y: int)
    requires
        0 <= r,
    ensures
        ({
            let dx = c.x as int - x;
            let dy = c.y as int - y;
            let sq = dx * dx + dy * dy;
            let v = eval(Sdf::Circle(c, r), x, y).v;
            &&& (sq < r * r ==> -r <= v < 0)
            &&& (sq == r * r ==> v == 0)
            &&& (sq > r * r ==> v > 0)
        }),
{
    let dx = c.x as int - x;
    let dy = c.y as int - y;
    let sq = dx * dx + dy * dy;
    assert(0 <= dx * dx && 0 <= dy * dy) by (nonlinear_arith);
    lemma_isqrt_bounds(sq);
    if sq < r * r {
        assert(1 <= r) by (nonlinear_arith)
            requires
                0 <= r,
                0 <= sq < r * r,
        ;
        lemma_isqrt_at_most(sq, r as int - 1);
    }
    if sq == r * r {
        lemma_isqrt_at_least(sq, r as int);
        assert(sq < (r + 1) * (r + 1)) by (nonlinear_arith)
            requires
                0 <= r,
                sq == r * r,
        ;
        lemma_isqrt_at_most(sq, r as int);
    }
    if sq > r * r {
        lemma_isqrt_up_at_least(sq, r as int);
    }
}

} // verus!


