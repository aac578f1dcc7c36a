//! Fixed-point plane and space vectors, and the yaw rotation that moves
//! velocities between world space and an entity's local frame.

use crate::math::abs_of;
use crate::math::lemma_mul_bounds;
use crate::math::lemma_tdiv_bounds;
use crate::math::tdiv;
use crate::math::tdiv_i128;
use crate::math::SCALE;
use crate::math::VEC_LIMIT;
use vstd::prelude::*;

verus! {

/// A 2D input vector: `x` is the right axis, `y` the forward axis, both
/// fixed-point.
#[derive(Clone, Copy, Debug, PartialEq, Eq, Structural)]
pub struct Vec2 {
    pub x: i64,
    pub y: i64,
}

/// Mathematical model of a `Vec2`.
pub struct V2 {
    pub x: int,
    pub y: int,
}

impl View for Vec2 {
    type V = V2;

    open spec fn view(&self) -> V2 {
        V2 { x: self.x as int, y: self.y as int }
    }
}

/// A 3D fixed-point vector; `y` is the vertical axis.
#[derive(Clone, Copy, Debug, PartialEq, Eq, Structural)]
pub struct Vec3 {
    pub x: i64,
    pub y: i64,
    pub z: i64,
}

/// Mathematical model of a `Vec3`.
pub struct V3 {
    pub x: int,
    pub y: int,
    pub z: int,
}

impl View for Vec3 {
    type V = V3;

    open spec fn view(&self) -> V3 {
        V3 { x: self.x as int, y: self.y as int, z: self.z as int }
    }
}

/// All three components lie within `m` of zero.
pub open spec fn v3_bounded(v: V3, m: int) -> bool {
    &&& -m <= v.x <= m
    &&& -m <= v.y <= m
    &&& -m <= v.z <= m
}

/// Both components lie within `m` of zero.
pub open spec fn v2_bounded(v: V2, m: int) -> bool {
    &&& -m <= v.x <= m
    &&& -m <= v.y <= m
}

/// A rotation about the vertical axis, held as the fixed-point cosine and
/// sine of the yaw angle.
#[derive(Clone, Copy, Debug, PartialEq, Eq, Structural)]
pub struct Rotation2D {
    pub c: i64,
    pub s: i64,
}

impl Rotation2D {
    /// The cosine and sine of an angle never leave the unit interval.
    pub open spec fn wf(self) -> bool {
        &&& -SCALE <= self.c <= SCALE
        &&& -SCALE <= self.s <= SCALE
    }

    /// The identity rotation.
    pub fn identity() -> (r: Rotation2D)
        ensures
            r.wf(),
            r.c == SCALE,
            r.s == 0,
    {
        Rotation2D { c: SCALE, s: 0 }
    }

    /// Rotating `v` about the vertical axis: the vertical component is kept,
    /// the planar components are mixed by the cosine and sine.
    pub open spec fn spec_rotate(self, v: V3) -> V3 {
        V3 {
            x: tdiv(v.x * self.c + v.z * self.s, SCALE as int),
            y: v.y,
            z: tdiv(v.z * self.c - v.x * self.s, SCALE as int),
        }
    }

    /// Rotating `v` by the inverse rotation (the sine negated).
    pub open spec fn spec_rotate_inv(self, v: V3) -> V3 {
        V3 {
            x: tdiv(v.x * self.c - v.z * self.s, SCALE as int),
            y: v.y,
            z: tdiv(v.z * self.c + v.x * self.s, SCALE as int),
        }
    }

    /// Apply the rotation to a vector. The planar components of the result
    /// are bounded by the sum of the planar magnitudes of the argument.
    pub fn rotate(&self, v: &Vec3) -> (r: Vec3)
        requires
            self.wf(),
            v3_bounded(v@, 16 * VEC_LIMIT),
        ensures
            r@ == self.spec_rotate(v@),
            abs_of(r@.x) <= abs_of(v@.x) + abs_of(v@.z),
            abs_of(r@.z) <= abs_of(v@.x) + abs_of(v@.z),
            r@.y == v@.y,
    {
        proof {
            lemma_mul_bounds(v.x as int, self.c as int, abs_of(v.x as int), SCALE as int);
            lemma_mul_bounds(v.z as int, self.s as int, abs_of(v.z as int), SCALE as int);
            lemma_mul_bounds(v.z as int, self.c as int, abs_of(v.z as int), SCALE as int);
            lemma_mul_bounds(v.x as int, self.s as int, abs_of(v.x as int), SCALE as int);
        }
        let nx = (v.x as i128) * (self.c as i128) + (v.z as i128) * (self.s as i128);
        let nz = (v.z as i128) * (self.c as i128) - (v.x as i128) * (self.s as i128);
        proof {
            lemma_tdiv_bounds(nx as int, SCALE as int);
            lemma_tdiv_bounds(nz as int, SCALE as int);
        }
        let rx = tdiv_i128(nx, SCALE as i128);
        let rz = tdiv_i128(nz, SCALE as i128);
        Vec3 { x: rx as i64, y: v.y, z: rz as i64 }
    }

    /// Apply the inverse rotation to a vector, with the same bound.
    pub fn rotate_inv(&self, v: &Vec3) -> (r: Vec3)
        requires
            self.wf(),
            v3_bounded(v@, 16 * VEC_LIMIT),
        ensures
            r@ == self.spec_rotate_inv(v@),
            abs_of(r@.x) <= abs_of(v@.x) + abs_of(v@.z),
            abs_of(r@.z) <= abs_of(v@.x) + abs_of(v@.z),
            r@.y == v@.y,
    {
        proof {
            lemma_mul_bounds(v.x as int, self.c as int, abs_of(v.x as int), SCALE as int);
            lemma_mul_bounds(v.z as int, self.s as int, abs_of(v.z as int), SCALE as int);
            lemma_mul_bounds(v.z as int, self.c as int, abs_of(v.z as int), SCALE as int);
            lemma_mul_bounds(v.x as int, self.s as int, abs_of(v.x as int), SCALE as int);
        }
        let nx = (v.x as i128) * (self.c as i128) - (v.z as i128) * (self.s as i128);
        let nz = (v.z as i128) * (self.c as i128) + (v.x as i128) * (self.s as i128);
        proof {
            lemma_tdiv_bounds(nx as int, SCALE as int);
            lemma_tdiv_bounds(nz as int, SCALE as int);
        }
        let rx = tdiv_i128(nx, SCALE as i128);
        let rz = tdiv_i128(nz, SCALE as i128);
        Vec3 { x: rx as i64, y: v.y, z: rz as i64 }
    }
}

} // verus!
