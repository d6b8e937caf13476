//! Cross products, squared lengths and near-equality.
use vstd::prelude::*;
use crate::fixed::Real;
use crate::scene::EPSILON_RAW;
use crate::types::Vec2;

verus! {

pub open spec fn cross_real_vector_spec(a: Real, v: Vec2) -> Vec2 {
    Vec2 { x: a.neg_spec().mul_spec(v.y), y: a.mul_spec(v.x) }
}

pub open spec fn cross_vectors_spec(a: Vec2, b: Vec2) -> Real {
    a.x.mul_spec(b.y).sub_spec(a.y.mul_spec(b.x))
}

pub open spec fn len_sqr_spec(v: Vec2) -> Real {
    v.x.mul_spec(v.x).add_spec(v.y.mul_spec(v.y))
}

pub open spec fn float_cmp_spec(a: Real, b: Real) -> bool {
    a.sub_spec(b).abs_spec().raw <= EPSILON_RAW
}

/// Cross product of a scalar (an out-of-plane vector) with `v`.
pub fn cross_real_vector(a: Real, v: Vec2) -> (r: Vec2)
    ensures
        r == cross_real_vector_spec(a, v),
{
    Vec2::new(a.neg().mul(v.y), a.mul(v.x))
}

/// The scalar cross product `a.x * b.y - a.y * b.x`.
pub fn cross_vectors(a: Vec2, b: Vec2) -> (r: Real)
    ensures
        r == cross_vectors_spec(a, b),
{
    a.x.mul(b.y).sub(a.y.mul(b.x))
}

pub fn len_sqr(v: Vec2) -> (r: Real)
    ensures
        r == len_sqr_spec(v),
{
    v.x.mul(v.x).add(v.y.mul(v.y))
}

/// Squared distance between two points.
pub fn dist_sqr(a: Vec2, b: Vec2) -> (r: Real)
    ensures
        r == a.sub_spec(b).dot_spec(a.sub_spec(b)),
{
    let c = a.sub(b);
    c.dot(c)
}

/// Whether `a` and `b` differ by at most the engine's epsilon.
pub fn float_cmp(a: Real, b: Real) -> (r: bool)
    ensures
        r == float_cmp_spec(a, b),
{
    a.sub(b).abs().raw <= EPSILON_RAW
}

} // verus!
