//! Two-dimensional vectors and 2x2 matrices over `Real`.
use vstd::prelude::*;
use crate::fixed::Real;

verus! {

#[derive(Clone, Copy, PartialEq, Eq, Structural, Debug)]
pub struct Vec2 {
    pub x: Real,
    pub y: Real,
}

impl Vec2 {
    pub open spec fn add_spec(self, o: Vec2) -> Vec2 {
        Vec2 { x: self.x.add_spec(o.x), y: self.y.add_spec(o.y) }
    }

    pub open spec fn sub_spec(self, o: Vec2) -> Vec2 {
        Vec2 { x: self.x.sub_spec(o.x), y: self.y.sub_spec(o.y) }
    }

    pub open spec fn neg_spec(self) -> Vec2 {
        Vec2 { x: self.x.neg_spec(), y: self.y.neg_spec() }
    }

    /// Each component multiplied by `k`.
    pub open spec fn scale_spec(self, k: Real) -> Vec2 {
        Vec2 { x: self.x.mul_spec(k), y: self.y.mul_spec(k) }
    }

    /// Each component divided by `k`.
    pub open spec fn div_spec(self, k: Real) -> Vec2 {
        Vec2 { x: self.x.div_spec(k), y: self.y.div_spec(k) }
    }

    pub open spec fn dot_spec(self, o: Vec2) -> Real {
        self.x.mul_spec(o.x).add_spec(self.y.mul_spec(o.y))
    }

    pub open spec fn is_zero(self) -> bool {
        self.x.raw == 0 && self.y.raw == 0
    }

    pub fn new(x: Real, y: Real) -> (r: Vec2)
        ensures
            r.x == x,
            r.y == y,
    {
        Vec2 { x, y }
    }

    pub fn zero() -> (r: Vec2)
        ensures
            r.is_zero(),
    {
        Vec2 { x: Real::zero(), y: Real::zero() }
    }

    pub fn add(self, o: Vec2) -> (r: Vec2)
        ensures
            r == self.add_spec(o),
    {
        Vec2 { x: self.x.add(o.x), y: self.y.add(o.y) }
    }

    pub fn sub(self, o: Vec2) -> (r: Vec2)
        ensures
            r == self.sub_spec(o),
    {
        Vec2 { x: self.x.sub(o.x), y: self.y.sub(o.y) }
    }

    pub fn neg(self) -> (r: Vec2)
        ensures
            r == self.neg_spec(),
    {
        Vec2 { x: self.x.neg(), y: self.y.neg() }
    }

    pub fn scale(self, k: Real) -> (r: Vec2)
        ensures
            r == self.scale_spec(k),
    {
        Vec2 { x: self.x.mul(k), y: self.y.mul(k) }
    }

    pub fn div(self, k: Real) -> (r: Vec2)
        requires
            k.raw != 0,
        ensures
            r == self.div_spec(k),
    {
        Vec2 { x: self.x.div(k), y: self.y.div(k) }
    }

    pub fn dot(self, o: Vec2) -> (r: Real)
        ensures
            r == self.dot_spec(o),
    {
        self.x.mul(o.x).add(self.y.mul(o.y))
    }
}

/// A 2x2 matrix, row by row.
#[derive(Clone, Copy, PartialEq, Eq, Structural, Debug)]
pub struct Mat2 {
    pub m00: Real,
    pub m01: Real,
    pub m10: Real,
    pub m11: Real,
}

impl Mat2 {
    pub open spec fn mul_vec_spec(self, v: Vec2) -> Vec2 {
        Vec2 {
            x: self.m00.mul_spec(v.x).add_spec(self.m01.mul_spec(v.y)),
            y: self.m10.mul_spec(v.x).add_spec(self.m11.mul_spec(v.y)),
        }
    }

    pub open spec fn transpose_spec(self) -> Mat2 {
        Mat2 { m00: self.m00, m01: self.m10, m10: self.m01, m11: self.m11 }
    }

    pub open spec fn is_identity(self) -> bool {
        self.m00.raw == crate::fixed::SCALE && self.m01.raw == 0 && self.m10.raw == 0
            && self.m11.raw == crate::fixed::SCALE
    }

    pub fn identity() -> (r: Mat2)
        ensures
            r.is_identity(),
    {
        Mat2 { m00: Real::from_int(1), m01: Real::zero(), m10: Real::zero(), m11: Real::from_int(1) }
    }

    pub fn mul_vec(&self, v: Vec2) -> (r: Vec2)
        ensures
            r == self.mul_vec_spec(v),
    {
        Vec2 {
            x: self.m00.mul(v.x).add(self.m01.mul(v.y)),
            y: self.m10.mul(v.x).add(self.m11.mul(v.y)),
        }
    }

    pub fn transpose(&self) -> (r: Mat2)
        ensures
            r == self.transpose_spec(),
    {
        Mat2 { m00: self.m00, m01: self.m10, m10: self.m01, m11: self.m11 }
    }
}

} // verus!
