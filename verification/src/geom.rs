//! Two-dimensional integer vectors and the split geometry.
//!
//! Positions and velocities are vectors of whole world units. The split
//! engine derives its two outgoing directions by rotating the impact
//! direction a quarter turn either way, which stays exact on integers;
//! only the final scaling divides, rounding toward zero.

use vstd::prelude::*;
use crate::num::is_isqrt;
use crate::num::isqrt;
use crate::num::isqrt_u64;
use crate::num::mul_div_tz;
use crate::num::mul_div_i64;

verus! {

/// A 2-D vector with whole-unit components.
#[derive(Clone, Copy, PartialEq, Eq, Structural, Debug)]
pub struct Vec2 {
    pub x: i64,
    pub y: i64,
}

impl Vec2 {
    /// Both components lie in `[-lim, lim]`.
    pub open spec fn in_range(self, lim: int) -> bool {
        -lim <= self.x <= lim && -lim <= self.y <= lim
    }

    /// The zero vector.
    pub open spec fn is_zero(self) -> bool {
        self.x == 0 && self.y == 0
    }

    /// Squared Euclidean length.
    pub open spec fn norm_sq(self) -> int {
        self.x * self.x + self.y * self.y
    }

    /// Euclidean length, rounded down to a whole number.
    pub open spec fn magnitude(self) -> int {
        isqrt(self.norm_sq())
    }

    /// Componentwise difference.
    pub open spec fn sub_spec(self, o: Vec2) -> Vec2 {
        Vec2 { x: (self.x - o.x) as i64, y: (self.y - o.y) as i64 }
    }

    /// Componentwise sum.
    pub open spec fn add_spec(self, o: Vec2) -> Vec2 {
        Vec2 { x: (self.x + o.x) as i64, y: (self.y + o.y) as i64 }
    }

    /// Componentwise negation.
    pub open spec fn neg_spec(self) -> Vec2 {
        Vec2 { x: (-(self.x as int)) as i64, y: (-(self.y as int)) as i64 }
    }

    /// Quarter turn counterclockwise: `(x, y)` becomes `(-y, x)`.
    pub open spec fn perp_ccw_spec(self) -> Vec2 {
        Vec2 { x: (-(self.y as int)) as i64, y: self.x }
    }

    /// Quarter turn clockwise: `(x, y)` becomes `(y, -x)`.
    pub open spec fn perp_cw_spec(self) -> Vec2 {
        Vec2 { x: self.y, y: (-(self.x as int)) as i64 }
    }

    /// Dot product.
    pub open spec fn dot_spec(self, o: Vec2) -> int {
        self.x * o.x + self.y * o.y
    }

    /// Both components multiplied by `k` and divided by `d`,
    /// rounding toward zero.
    pub open spec fn scale_div_spec(self, k: int, d: int) -> Vec2 {
        Vec2 {
            x: mul_div_tz(self.x as int, k, d) as i64,
            y: mul_div_tz(self.y as int, k, d) as i64,
        }
    }

    /// Construct a vector.
    pub fn new(x: i64, y: i64) -> (r: Vec2)
        ensures
            r == (Vec2 { x, y }),
    {
        Vec2 { x, y }
    }

    /// The zero vector.
    pub fn zero() -> (r: Vec2)
        ensures
            r == (Vec2 { x: 0i64, y: 0i64 }),
            r.is_zero(),
    {
        Vec2 { x: 0, y: 0 }
    }

    /// Subtract `o` from `self`.
    pub fn sub(self, o: Vec2) -> (r: Vec2)
        requires
            self.in_range(2_000_000_000),
            o.in_range(2_000_000_000),
        ensures
            r == self.sub_spec(o),
            r.x == self.x - o.x,
            r.y == self.y - o.y,
    {
        Vec2 { x: self.x - o.x, y: self.y - o.y }
    }

    /// Add `o` to `self`.
    pub fn add(self, o: Vec2) -> (r: Vec2)
        requires
            self.in_range(2_000_000_000),
            o.in_range(2_000_000_000),
        ensures
            r == self.add_spec(o),
            r.x == self.x + o.x,
            r.y == self.y + o.y,
    {
        Vec2 { x: self.x + o.x, y: self.y + o.y }
    }

    /// Rotate a quarter turn counterclockwise.
    pub fn perp_ccw(self) -> (r: Vec2)
        requires
            self.in_range(2_000_000_000),
        ensures
            r == self.perp_ccw_spec(),
            r.x == -(self.y as int),
            r.y == self.x,
    {
        Vec2 { x: -self.y, y: self.x }
    }

    /// Rotate a quarter turn clockwise.
    pub fn perp_cw(self) -> (r: Vec2)
        requires
            self.in_range(2_000_000_000),
        ensures
            r == self.perp_cw_spec(),
            r.x == self.y,
            r.y == -(self.x as int),
    {
        Vec2 { x: self.y, y: -self.x }
    }

    /// Squared length as a machine word.
    pub fn norm_sq_u64(self) -> (r: u64)
        requires
            self.in_range(2_000_000_000),
        ensures
            r as int == self.norm_sq(),
    {
        proof {
            let xi = self.x as int;
            let yi = self.y as int;
            assert(0 <= xi * xi <= 4_000_000_000_000_000_000 && 0 <= yi * yi
                <= 4_000_000_000_000_000_000) by (nonlinear_arith)
                requires
                    -2_000_000_000 <= xi <= 2_000_000_000,
                    -2_000_000_000 <= yi <= 2_000_000_000,
            {
            }
        }
        let xx: i64 = self.x * self.x;
        let yy: i64 = self.y * self.y;
        (xx + yy) as u64
    }

    /// Length, rounded down to a whole number.
    pub fn magnitude_i64(self) -> (r: i64)
        requires
            self.in_range(2_000_000_000),
        ensures
            r == self.magnitude(),
            is_isqrt(self.norm_sq(), r as int),
            0 <= r <= 3_000_000_000,
            !self.is_zero() ==> 1 <= r,
    {
        let ns = self.norm_sq_u64();
        let root = isqrt_u64(ns);
        proof {
            if !self.is_zero() {
                let xi = self.x as int;
                let yi = self.y as int;
                assert(xi * xi + yi * yi >= 1) by (nonlinear_arith)
                    requires
                        !(xi == 0 && yi == 0),
                {
                }
                if root == 0 {
                    assert((ns as int) < 1) by (nonlinear_arith)
                        requires
                            (ns as int) < (root as int + 1) * (root as int + 1),
                            root == 0u64,
                    {
                    }
                    assert(false);
                }
            }
            let xi = self.x as int;
            let yi = self.y as int;
            assert(xi * xi + yi * yi <= 8_000_000_000_000_000_000) by (nonlinear_arith)
                requires
                    -2_000_000_000 <= xi <= 2_000_000_000,
                    -2_000_000_000 <= yi <= 2_000_000_000,
            {
            }
            assert((root as int) * (root as int) <= ns as int);
            assert(root as int <= 3_000_000_000) by (nonlinear_arith)
                requires
                    0 <= root,
                    (root as int) * (root as int) <= 8_000_000_000_000_000_000,
            {
            }
        }
        root as i64
    }

    /// Multiply by `k`, then divide by `d`, rounding toward zero.
    pub fn scale_div(self, k: i64, d: i64) -> (r: Vec2)
        requires
            0 < d,
            self.in_range(3_000_000_000),
            -3_000_000_000 <= k <= 3_000_000_000,
        ensures
            r == self.scale_div_spec(k as int, d as int),
    {
        Vec2 { x: mul_div_i64(self.x, k, d), y: mul_div_i64(self.y, k, d) }
    }
}

/// A squared length is never negative.
pub proof fn lemma_norm_sq_nonneg(v: Vec2)
    ensures
        v.norm_sq() >= 0,
{
    let xi = v.x as int;
    let yi = v.y as int;
    assert(xi * xi + yi * yi >= 0) by (nonlinear_arith) {
    }
}

/// The two split directions are orthogonal to the impact direction and
/// antiparallel to each other.
pub proof fn lemma_perpendicular(d: Vec2)
    requires
        d.in_range(2_000_000_000),
    ensures
        d.perp_ccw_spec().dot_spec(d) == 0,
        d.perp_cw_spec().dot_spec(d) == 0,
        d.perp_cw_spec() == d.perp_ccw_spec().neg_spec(),
        d.perp_ccw_spec().dot_spec(d.perp_cw_spec()) == -d.norm_sq(),
        d.perp_ccw_spec().norm_sq() == d.norm_sq(),
        d.perp_cw_spec().norm_sq() == d.norm_sq(),
{
    let xi = d.x as int;
    let yi = d.y as int;
    assert((-yi) * xi + xi * yi == 0) by (nonlinear_arith) {
    }
    assert(yi * xi + (-xi) * yi == 0) by (nonlinear_arith) {
    }
    assert((-yi) * yi + xi * (-xi) == -(xi * xi + yi * yi)) by (nonlinear_arith) {
    }
    assert((-yi) * (-yi) + xi * xi == xi * xi + yi * yi) by (nonlinear_arith) {
    }
    assert(yi * yi + (-xi) * (-xi) == xi * xi + yi * yi) by (nonlinear_arith) {
    }
}

} // verus!
