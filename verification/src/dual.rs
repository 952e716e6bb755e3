//! An exact dual-number scalar: a value paired with its derivative with
//! respect to one implicit variable, both held as `i64`. Every operation
//! propagates the derivative by the standard forward-mode rules; `min` and
//! `max` hand back the winning operand whole (value and derivative), with the
//! first operand winning an exact tie.

use vstd::prelude::*;

verus! {

/// The mathematical reading of a dual number: an unbounded value and slope.
pub ghost struct DualModel {
    pub v: int,
    pub d: int,
}

/// Negation of a dual number: both channels flip sign.
pub open spec fn dual_neg(a: DualModel) -> DualModel {
    DualModel { v: -a.v, d: -a.d }
}

/// Minimum of two dual numbers: the operand with the smaller value wins
/// whole, and the first operand wins an exact tie.
pub open spec fn dual_min(a: DualModel, b: DualModel) -> DualModel {
    if a.v > b.v {
        b
    } else {
        a
    }
}

/// Maximum of two dual numbers: the operand with the larger value wins
/// whole, and the first operand wins an exact tie.
pub open spec fn dual_max(a: DualModel, b: DualModel) -> DualModel {
    if a.v < b.v {
        b
    } else {
        a
    }
}

/// Integer square root, rounded toward zero; zero for negative arguments,
/// which no caller in this crate reaches.
pub open spec fn spec_isqrt(n: int) -> int
    decreases n,
{
    if n <= 0 {
        0
    } else {
        let r = spec_isqrt(n - 1);
        if (r + 1) * (r + 1) <= n {
            r + 1
        } else {
            r
        }
    }
}

/// Integer square root, rounded up: the floor root of `n - 1`, plus one.
/// Zero for nonpositive arguments.
pub open spec fn spec_isqrt_up(n: int) -> int {
    if n <= 0 {
        0
    } else {
        spec_isqrt(n - 1) + 1
    }
}

/// Quotient rounded toward zero, for a positive divisor.
pub open spec fn trunc_div(a: int, b: int) -> int {
    if a >= 0 {
        a / b
    } else {
        -((-a) / b)
    }
}

/// The derivative channel of a square root: the incoming slope divided by
/// twice the root, rounded toward zero. A zero root would make the true
/// slope unbounded; this scalar pins it to zero.
pub open spec fn sqrt_slope(n: int, d: int) -> int {
    let r = spec_isqrt(n);
    if r == 0 {
        0
    } else {
        trunc_div(d, 2 * r)
    }
}

/// `spec_isqrt(n)` is the floor of the square root: it squares to at most
/// `n`, and the next integer squares past `n`.
pub proof fn lemma_isqrt_bounds(n: int)
    requires
        0 <= n,
    ensures
        0 <= spec_isqrt(n),
        spec_isqrt(n) * spec_isqrt(n) <= n,
        n < (spec_isqrt(n) + 1) * (spec_isqrt(n) + 1),
    decreases n,
{
    if n == 0 {
        assert(spec_isqrt(0) == 0);
    } else {
        lemma_isqrt_bounds(n - 1);
        let r = spec_isqrt(n - 1);
        if (r + 1) * (r + 1) <= n {
            assert(n - 1 < (r + 1) * (r + 1));
            assert((r + 1) * (r + 1) <= n < (r + 2) * (r + 2)) by (nonlinear_arith)
                requires
                    0 <= r,
                    (r + 1) * (r + 1) <= n,
                    n - 1 < (r + 1) * (r + 1),
            ;
        }
    }
}

/// Any `b` whose square does not exceed `n` lies at or below the floor root.
pub proof fn lemma_isqrt_at_least(n: int, b: int)
    requires
        0 <= n,
        0 <= b,
        b * b <= n,
    ensures
        b <= spec_isqrt(n),
{
    lemma_isqrt_bounds(n);
    let r = spec_isqrt(n);
    if r < b {
        assert(b * b >= (r + 1) * (r + 1)) by (nonlinear_arith)
            requires
                0 <= r,
                r + 1 <= b,
        ;
    }
}

/// Any `b` that the next square passes bounds the floor root from above.
pub proof fn lemma_isqrt_at_most(n: int, b: int)
    requires
        0 <= n,
        0 <= b,
        n < (b + 1) * (b + 1),
    ensures
        spec_isqrt(n) <= b,
{
    lemma_isqrt_bounds(n);
    let r = spec_isqrt(n);
    if b < r {
        assert(r * r >= (b + 1) * (b + 1)) by (nonlinear_arith)
            requires
                0 <= b,
                b + 1 <= r,
        ;
    }
}

/// `spec_isqrt_up(n)` is the ceiling of the square root: it squares to at
/// least `n`, and the previous integer squares short of `n`.
pub proof fn lemma_isqrt_up_bounds(n: int)
    requires
        1 <= n,
    ensures
        1 <= spec_isqrt_up(n),
        n <= spec_isqrt_up(n) * spec_isqrt_up(n),
        (spec_isqrt_up(n) - 1) * (spec_isqrt_up(n) - 1) < n,
{
    lemma_isqrt_bounds(n - 1);
}

/// Any `b` whose square falls short of `n` lies strictly below the ceiling
/// root.
pub proof fn lemma_isqrt_up_at_least(n: int, b: int)
    requires
        1 <= n,
        0 <= b,
        b * b < n,
    ensures
        b + 1 <= spec_isqrt_up(n),
{
    lemma_isqrt_up_bounds(n);
    let r = spec_isqrt_up(n);
    if r < b + 1 {
        assert(r * r <= b * b) by (nonlinear_arith)
            requires
                0 <= r <= b,
        ;
    }
}

/// A quotient rounded toward zero never grows past the dividend.
pub proof fn lemma_trunc_div_bound(a: int, b: int)
    requires
        1 <= b,
    ensures
        0 <= a ==> 0 <= trunc_div(a, b) <= a,
        a < 0 ==> a <= trunc_div(a, b) <= 0,
{
    if a >= 0 {
        assert(0 <= a / b <= a) by (nonlinear_arith)
            requires
                0 <= a,
                1 <= b,
        ;
    } else {
        assert(0 <= (-a) / b <= -a) by (nonlinear_arith)
            requires
                0 <= -a,
                1 <= b,
        ;
    }
}

/// Floor of the square root of `n`, by binary search.
pub fn isqrt(n: i64) -> (r: i64)
    requires
        0 <= n < 0x4000_0000_0000_0000,
    ensures
        r == spec_isqrt(n as int),
{
    let mut lo: i64 = 0;
    let mut hi: i64 = 0x8000_0000;
    proof {
        assert((0x8000_0000 as int) * (0x8000_0000 as int) == 0x4000_0000_0000_0000)
            by (nonlinear_arith);
    }
    while hi - lo > 1
        invariant
            0 <= lo < hi <= 0x8000_0000,
            lo * lo <= n,
            n < hi * hi,
        decreases hi - lo,
    {
        let mid = lo + (hi - lo) / 2;
        proof {
            assert(mid * mid <= 0x8000_0000i64 * 0x8000_0000i64) by (nonlinear_arith)
                requires
                    0 < mid <= 0x8000_0000,
            ;
        }
        if mid * mid <= n {
            lo = mid;
        } else {
            hi = mid;
        }
    }
    proof {
        lemma_isqrt_at_least(n as int, lo as int);
        lemma_isqrt_at_most(n as int, lo as int);
    }
    lo
}

/// Ceiling of the square root of `n`, from the floor root of `n - 1`.
pub fn isqrt_up(n: i64) -> (r: i64)
    requires
        0 <= n < 0x4000_0000_0000_0000,
    ensures
        r == spec_isqrt_up(n as int),
{
    if n == 0 {
        0
    } else {
        proof {
            lemma_isqrt_bounds(n as int - 1);
            lemma_isqrt_at_most(n as int - 1, 0x8000_0000);
            assert((0x8000_0001 as int) * (0x8000_0001 as int) > 0x4000_0000_0000_0000)
                by (nonlinear_arith);
        }
        isqrt(n - 1) + 1
    }
}

/// A dual number as executable data.
#[derive(Clone, Copy, Debug, PartialEq, Eq)]
pub struct Dual {
    pub v: i64,
    pub d: i64,
}

impl View for Dual {
    type V = DualModel;

    open spec fn view(&self) -> DualModel {
        DualModel { v: self.v as int, d: self.d as int }
    }
}

impl Dual {
    /// A variable: its derivative with respect to itself is one.
    pub fn var(x: i64) -> (r: Dual)
        ensures
            r@ == (DualModel { v: x as int, d: 1 }),
    {
        Dual { v: x, d: 1 }
    }

    /// A constant: its derivative is zero.
    pub fn cst(x: i64) -> (r: Dual)
        ensures
            r@ == (DualModel { v: x as int, d: 0 }),
    {
        Dual { v: x, d: 0 }
    }

    /// Sum: both channels add.
    pub fn add(self, other: Dual) -> (r: Dual)
        requires
            i64::MIN <= self@.v + other@.v <= i64::MAX,
            i64::MIN <= self@.d + other@.d <= i64::MAX,
        ensures
            r@ == (DualModel { v: self@.v + other@.v, d: self@.d + other@.d }),
    {
        Dual { v: self.v + other.v, d: self.d + other.d }
    }

    /// Difference: both channels subtract.
    pub fn sub(self, other: Dual) -> (r: Dual)
        requires
            i64::MIN <= self@.v - other@.v <= i64::MAX,
            i64::MIN <= self@.d - other@.d <= i64::MAX,
        ensures
            r@ == (DualModel { v: self@.v - other@.v, d: self@.d - other@.d }),
    {
        Dual { v: self.v - other.v, d: self.d - other.d }
    }

    /// Negation.
    pub fn neg(self) -> (r: Dual)
        requires
            i64::MIN < self@.v,
            i64::MIN < self@.d,
        ensures
            r@ == dual_neg(self@),
    {
        Dual { v: -self.v, d: -self.d }
    }

    /// Minimum; the first operand wins an exact tie.
    pub fn min(self, other: Dual) -> (r: Dual)
        ensures
            r@ == dual_min(self@, other@),
    {
        if self.v > other.v {
            other
        } else {
            self
        }
    }

    /// Maximum; the first operand wins an exact tie.
    pub fn max(self, other: Dual) -> (r: Dual)
        ensures
            r@ == dual_max(self@, other@),
    {
        if self.v < other.v {
            other
        } else {
            self
        }
    }

    /// Square, by the power rule: the slope doubles against the value.
    pub fn sqr(self) -> (r: Dual)
        requires
            self@.v * self@.v <= i64::MAX,
            i64::MIN <= 2 * self@.v * self@.d <= i64::MAX,
        ensures
            r@ == (DualModel { v: self@.v * self@.v, d: 2 * self@.v * self@.d }),
    {
        proof {
            assert(i64::MIN <= self@.v * self@.v) by (nonlinear_arith);
            assert(2 * (self@.v * self@.d) == 2 * self@.v * self@.d) by (nonlinear_arith);
            assert(i64::MIN <= self@.v * self@.d <= i64::MAX) by (nonlinear_arith)
                requires
                    i64::MIN <= 2 * self@.v * self@.d <= i64::MAX,
            ;
        }
        Dual { v: self.v * self.v, d: 2 * (self.v * self.d) }
    }

    /// Square root: the value is the floor root, and the slope is divided by
    /// twice the root (zero when the root is zero).
    pub fn sqrt(self) -> (r: Dual)
        requires
            0 <= self@.v < 0x4000_0000_0000_0000,
            i64::MIN < self@.d,
        ensures
            r@ == (DualModel { v: spec_isqrt(self@.v), d: sqrt_slope(self@.v, self@.d) }),
    {
        let root = isqrt(self.v);
        proof {
            lemma_isqrt_bounds(self@.v);
            lemma_isqrt_at_most(self@.v, 0x8000_0000);
            assert((0x8000_0001 as int) * (0x8000_0001 as int) > 0x4000_0000_0000_0000)
                by (nonlinear_arith);
        }
        let slope: i64 = if root == 0 {
            0
        } else {
            let den = 2 * root;
            proof {
                lemma_trunc_div_bound(self@.d, 2 * root as int);
            }
            if self.d >= 0 {
                self.d / den
            } else {
                -((-self.d) / den)
            }
        };
        Dual { v: root, d: slope }
    }
}

} // verus!
