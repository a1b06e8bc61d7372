//! Three-component fixed-point vectors.
use vstd::prelude::*;
use crate::fixed::{lemma_mul_bound, SCALE};

verus! {

/// Largest magnitude of a vector component (positions, velocities, displacements).
pub const VEC_LIMIT: i64 = 100_000_000_000;

/// A vector of three fixed-point components.
#[derive(Clone, Copy, Debug, PartialEq, Eq, Structural)]
pub struct Vec3 {
    pub x: i64,
    pub y: i64,
    pub z: i64,
}

/// Whether a scalar lies within the vector component limit.
pub open spec fn within_limit(v: int) -> bool {
    -VEC_LIMIT <= v <= VEC_LIMIT
}

/// Whether a scalar is at most one unit in magnitude.
pub open spec fn within_unit(v: int) -> bool {
    -SCALE <= v <= SCALE
}

/// Floor of the square root.
pub open spec fn is_floor_sqrt(r: int, n: int) -> bool {
    0 <= r && r * r <= n < (r + 1) * (r + 1)
}

/// The floor of the square root of a non-negative number.
pub open spec fn sqrt_floor(n: int) -> int {
    choose|r: int| is_floor_sqrt(r, n)
}

/// The floor square root is unique, so any witness is `sqrt_floor`.
pub proof fn lemma_sqrt_floor_is(r: int, n: int)
    requires
        is_floor_sqrt(r, n),
    ensures
        sqrt_floor(n) == r,
{
    let s = sqrt_floor(n);
    assert(is_floor_sqrt(s, n));
    if s < r {
        assert((s + 1) * (s + 1) <= r * r) by (nonlinear_arith)
            requires
                0 <= s + 1 <= r,
        ;
    }
    if r < s {
        assert((r + 1) * (r + 1) <= s * s) by (nonlinear_arith)
            requires
                0 <= r + 1 <= s,
        ;
    }
}

impl Vec3 {
    /// Every component lies within `VEC_LIMIT`.
    pub open spec fn in_bounds(self) -> bool {
        within_limit(self.x as int) && within_limit(self.y as int) && within_limit(self.z as int)
    }

    /// Every component is at most one unit: the shape of a unit direction such as a
    /// surface normal.
    pub open spec fn is_direction(self) -> bool {
        within_unit(self.x as int) && within_unit(self.y as int) && within_unit(self.z as int)
    }

    /// Shaped like a unit vector: components of at most one unit and a squared length
    /// of at least half a unit, which tolerates rounding of a true unit vector.
    pub open spec fn is_unit_like(self) -> bool {
        self.is_direction() && self.dot_spec(self) >= SCALE * SCALE / 2
    }

    /// Whether every component lies within `VEC_LIMIT`.
    pub fn is_in_bounds(&self) -> (r: bool)
        ensures
            r == self.in_bounds(),
    {
        -VEC_LIMIT <= self.x && self.x <= VEC_LIMIT && -VEC_LIMIT <= self.y && self.y <= VEC_LIMIT
            && -VEC_LIMIT <= self.z && self.z <= VEC_LIMIT
    }

    /// Whether every component is at most one unit.
    pub fn is_direction_shaped(&self) -> (r: bool)
        ensures
            r == self.is_direction(),
    {
        -SCALE <= self.x && self.x <= SCALE && -SCALE <= self.y && self.y <= SCALE && -SCALE <= self.z
            && self.z <= SCALE
    }

    /// Whether the vector is shaped like a unit vector (see `is_unit_like`).
    pub fn is_unit_shaped(&self) -> (r: bool)
        ensures
            r == self.is_unit_like(),
    {
        if !self.is_direction_shaped() {
            return false;
        }
        proof {
            lemma_mul_bound(self.x as int, self.x as int, SCALE as int, SCALE as int);
            lemma_mul_bound(self.y as int, self.y as int, SCALE as int, SCALE as int);
            lemma_mul_bound(self.z as int, self.z as int, SCALE as int, SCALE as int);
        }
        let nn: i128 = (self.x as i128) * (self.x as i128) + (self.y as i128) * (self.y as i128) + (self.z as i128)
            * (self.z as i128);
        nn >= (SCALE as i128) * (SCALE as i128) / 2
    }

    /// Raw dot product, in squared raw steps.
    pub open spec fn dot_spec(self, o: Vec3) -> int {
        self.x * o.x + self.y * o.y + self.z * o.z
    }

    /// The zero vector.
    pub fn zero() -> (r: Vec3)
        ensures
            r == (Vec3 { x: 0, y: 0, z: 0 }),
    {
        Vec3 { x: 0, y: 0, z: 0 }
    }

    /// Builds a vector from its components.
    pub fn new(x: i64, y: i64, z: i64) -> (r: Vec3)
        ensures
            r == (Vec3 { x, y, z }),
    {
        Vec3 { x, y, z }
    }

    /// Component-wise sum.
    pub fn add(&self, o: &Vec3) -> (r: Vec3)
        requires
            self.in_bounds(),
            o.in_bounds(),
        ensures
            r.x == self.x + o.x,
            r.y == self.y + o.y,
            r.z == self.z + o.z,
    {
        Vec3 { x: self.x + o.x, y: self.y + o.y, z: self.z + o.z }
    }

    /// Component-wise difference.
    pub fn sub(&self, o: &Vec3) -> (r: Vec3)
        requires
            self.in_bounds(),
            o.in_bounds(),
        ensures
            r.x == self.x - o.x,
            r.y == self.y - o.y,
            r.z == self.z - o.z,
    {
        Vec3 { x: self.x - o.x, y: self.y - o.y, z: self.z - o.z }
    }

    /// Raw dot product of a bounded vector with a direction.
    pub fn dot(&self, o: &Vec3) -> (r: i128)
        requires
            self.in_bounds(),
            o.is_direction(),
        ensures
            r == self.dot_spec(*o),
            -300_000_000_000_000_000 <= r <= 300_000_000_000_000_000,
    {
        proof {
            lemma_mul_bound(self.x as int, o.x as int, VEC_LIMIT as int, SCALE as int);
            lemma_mul_bound(self.y as int, o.y as int, VEC_LIMIT as int, SCALE as int);
            lemma_mul_bound(self.z as int, o.z as int, VEC_LIMIT as int, SCALE as int);
        }
        (self.x as i128) * (o.x as i128) + (self.y as i128) * (o.y as i128) + (self.z as i128) * (o.z as i128)
    }

    /// Raw squared length.
    pub fn length_squared(&self) -> (r: i128)
        requires
            self.in_bounds(),
        ensures
            r == self.dot_spec(*self),
            0 <= r <= 3 * VEC_LIMIT * VEC_LIMIT,
    {
        proof {
            lemma_mul_bound(self.x as int, self.x as int, VEC_LIMIT as int, VEC_LIMIT as int);
            lemma_mul_bound(self.y as int, self.y as int, VEC_LIMIT as int, VEC_LIMIT as int);
            lemma_mul_bound(self.z as int, self.z as int, VEC_LIMIT as int, VEC_LIMIT as int);
            assert(self.x * self.x >= 0 && self.y * self.y >= 0 && self.z * self.z >= 0) by (nonlinear_arith);
        }
        (self.x as i128) * (self.x as i128) + (self.y as i128) * (self.y as i128) + (self.z as i128) * (self.z as i128)
    }

    /// Length, rounded down to a whole raw step.
    pub fn length(&self) -> (r: i64)
        requires
            self.in_bounds(),
        ensures
            is_floor_sqrt(r as int, self.dot_spec(*self)),
            r == sqrt_floor(self.dot_spec(*self)),
            0 <= r <= 2 * VEC_LIMIT,
    {
        let n = self.length_squared();
        let r = floor_sqrt(n);
        proof {
            lemma_sqrt_floor_is(r as int, n as int);
            if r > 2 * VEC_LIMIT {
                assert(r * r > 4 * VEC_LIMIT * VEC_LIMIT) by (nonlinear_arith)
                    requires
                        r > 2 * VEC_LIMIT,
                ;
            }
        }
        r as i64
    }
}

/// Floor of the square root of a non-negative number below 2^80.
pub fn floor_sqrt(n: i128) -> (r: i128)
    requires
        0 <= n < 0x1_0000_0000_0000_0000_0000,
    ensures
        is_floor_sqrt(r as int, n as int),
{
    let mut lo: i128 = 0;
    let mut hi: i128 = 0x100_0000_0000;
    assert(hi * hi == 0x1_0000_0000_0000_0000_0000) by (nonlinear_arith)
        requires
            hi == 0x100_0000_0000,
    ;
    while hi - lo > 1
        invariant
            0 <= lo < hi <= 0x100_0000_0000,
            lo * lo <= n,
            n < hi * hi,
        decreases hi - lo,
    {
        let mid: i128 = lo + (hi - lo) / 2;
        assert(mid * mid <= 0x1_0000_0000_0000_0000_0000) by (nonlinear_arith)
            requires
                0 <= mid <= 0x100_0000_0000,
        ;
        if mid * mid <= n {
            lo = mid;
        } else {
            hi = mid;
        }
    }
    assert(hi == lo + 1);
    lo
}

} // verus!
