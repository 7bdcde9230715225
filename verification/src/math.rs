//! 2D fixed-point vector primitive.
//!
//! Positions are stored in fixed-point units: one world unit is `SCALE`
//! stored units. Distances are compared through their squares, which are
//! exact over the integers, so no rounding enters any range check.

use vstd::prelude::*;

verus! {

/// Number of stored units per world unit.
pub const SCALE: i32 = 1_000_000;

/// A 2D point or displacement in fixed-point units.
#[derive(Clone, Copy, PartialEq, Eq, Structural, Debug)]
pub struct Vec2 {
    pub x: i32,
    pub y: i32,
}

/// Squared length of `v`, over the unbounded integers.
pub open spec fn length_sq_spec(v: Vec2) -> int {
    v.x * v.x + v.y * v.y
}

/// Squared Euclidean distance between `a` and `b`, over the unbounded
/// integers.
pub open spec fn dist_sq_spec(a: Vec2, b: Vec2) -> int {
    (a.x - b.x) * (a.x - b.x) + (a.y - b.y) * (a.y - b.y)
}

/// A product of two integers each bounded by `m` in magnitude is bounded
/// by `m * m`.
proof fn lemma_sq_bound(a: int, m: int)
    by (nonlinear_arith)
    requires
        0 <= m,
        -m <= a && a <= m,
    ensures
        0 <= a * a && a * a <= m * m,
{
}

impl Vec2 {
    /// Squared length; exact, no rounding.
    pub fn length_sq(&self) -> (r: i128)
        ensures
            r == length_sq_spec(*self),
    {
        let x = self.x as i128;
        let y = self.y as i128;
        proof {
            lemma_sq_bound(x as int, 0x8000_0000);
            lemma_sq_bound(y as int, 0x8000_0000);
        }
        x * x + y * y
    }

    /// Squared Euclidean distance to `other`; exact, no rounding.
    pub fn distance_sq(self, other: Vec2) -> (r: i128)
        ensures
            r == dist_sq_spec(self, other),
    {
        let dx = self.x as i128 - other.x as i128;
        let dy = self.y as i128 - other.y as i128;
        proof {
            lemma_sq_bound(dx as int, 0x1_0000_0000);
            lemma_sq_bound(dy as int, 0x1_0000_0000);
        }
        dx * dx + dy * dy
    }

    /// Component-wise difference `self - rhs`.
    pub fn sub(self, rhs: Vec2) -> (r: Vec2)
        requires
            i32::MIN <= self.x - rhs.x <= i32::MAX,
            i32::MIN <= self.y - rhs.y <= i32::MAX,
        ensures
            r.x == self.x - rhs.x,
            r.y == self.y - rhs.y,
    {
        Vec2 { x: self.x - rhs.x, y: self.y - rhs.y }
    }
}

/// Builds the vector `(x, y)`.
pub fn vec2(x: i32, y: i32) -> (r: Vec2)
    ensures
        r == (Vec2 { x, y }),
{
    Vec2 { x, y }
}

/// Distance is symmetric, and the distance from a point to itself is zero.
pub proof fn lemma_distance_symmetry(a: Vec2, b: Vec2)
    ensures
        dist_sq_spec(a, b) == dist_sq_spec(b, a),
        dist_sq_spec(a, a) == 0,
{
    assert((a.x - b.x) * (a.x - b.x) == (b.x - a.x) * (b.x - a.x)) by (nonlinear_arith);
    assert((a.y - b.y) * (a.y - b.y) == (b.y - a.y) * (b.y - a.y)) by (nonlinear_arith);
}

} // verus!
