//! A 2D vector over fixed-point coordinates.
//!
//! A coordinate counts micro-units: `1_000_000` stands for one table
//! unit.  Addition, subtraction, dot product and squared magnitude are
//! exact; the contracts state them over mathematical integers.

use vstd::prelude::*;

verus! {

/// Micro-units per table unit: the fixed-point scale of every coordinate.
pub const MICRO: i64 = 1_000_000;

/// Largest coordinate magnitude, in micro-units, that the solver
/// accepts (500 table units).  It keeps every intermediate product of
/// the geometry inside `i128`.
pub const MAX_COORD: i64 = 500_000_000;

/// An immutable 2D vector of micro-unit coordinates.
#[derive(Clone, Copy, Debug, PartialEq, Eq, Structural)]
pub struct Vec2 {
    pub x: i64,
    pub y: i64,
}

impl Vec2 {
    /// Both coordinates lie within `b` of zero.
    pub open spec fn bounded(self, b: int) -> bool {
        -b <= self.x <= b && -b <= self.y <= b
    }

    pub fn new(x: i64, y: i64) -> (v: Vec2)
        ensures
            v.x == x,
            v.y == y,
    {
        Vec2 { x, y }
    }

    /// Componentwise sum.
    pub fn add(&self, other: &Vec2) -> (v: Vec2)
        requires
            self.x + other.x <= i64::MAX,
            i64::MIN <= self.x + other.x,
            self.y + other.y <= i64::MAX,
            i64::MIN <= self.y + other.y,
        ensures
            v.x == self.x + other.x,
            v.y == self.y + other.y,
    {
        Vec2 { x: self.x + other.x, y: self.y + other.y }
    }

    /// Componentwise difference.
    pub fn sub(&self, other: &Vec2) -> (v: Vec2)
        requires
            self.x - other.x <= i64::MAX,
            i64::MIN <= self.x - other.x,
            self.y - other.y <= i64::MAX,
            i64::MIN <= self.y - other.y,
        ensures
            v.x == self.x - other.x,
            v.y == self.y - other.y,
    {
        Vec2 { x: self.x - other.x, y: self.y - other.y }
    }

    /// Dot product, widened to `i128` so it is exact for any bounded pair.
    pub fn dot(&self, other: &Vec2) -> (d: i128)
        requires
            self.bounded(0x1_0000_0000),
            other.bounded(0x1_0000_0000),
        ensures
            d == self.x * other.x + self.y * other.y,
            -0x2_0000_0000_0000_0000 <= d <= 0x2_0000_0000_0000_0000,
    {
        proof {
            crate::arith::lemma_mul_bound(self.x as int, other.x as int, 0x1_0000_0000int,
                0x1_0000_0000int);
            crate::arith::lemma_mul_bound(self.y as int, other.y as int, 0x1_0000_0000int,
                0x1_0000_0000int);
        }
        (self.x as i128) * (other.x as i128) + (self.y as i128) * (other.y as i128)
    }

    /// Squared magnitude: the dot product of the vector with itself.
    pub fn mag_sq(&self) -> (m: i128)
        requires
            self.bounded(0x1_0000_0000),
        ensures
            m == self.x * self.x + self.y * self.y,
            m >= 0,
    {
        proof {
            crate::arith::lemma_mul_bound(self.x as int, self.x as int, 0x1_0000_0000int,
                0x1_0000_0000int);
            crate::arith::lemma_mul_bound(self.y as int, self.y as int, 0x1_0000_0000int,
                0x1_0000_0000int);
            assert(self.x * self.x >= 0 && self.y * self.y >= 0) by (nonlinear_arith);
        }
        (self.x as i128) * (self.x as i128) + (self.y as i128) * (self.y as i128)
    }

    /// The zero vector is the only vector of squared magnitude zero.
    pub proof fn lemma_mag_sq_zero(self)
        ensures
            self.x * self.x + self.y * self.y == 0 <==> self.x == 0 && self.y == 0,
    {
        assert(self.x * self.x + self.y * self.y == 0 <==> self.x == 0 && self.y == 0)
            by (nonlinear_arith);
    }
}

} // verus!
