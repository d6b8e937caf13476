//! Narrow-phase contact tests and contact manifolds.
use vstd::prelude::*;
use crate::fixed::{Real, SCALE, RAW_MAX};
use crate::types::{Vec2, Mat2};
use crate::body::{Body, PolygonShapeVertex, next_index, next_index_spec};
use crate::operations::{
    cross_real_vector, cross_real_vector_spec, len_sqr, len_sqr_spec, dist_sqr, float_cmp,
    float_cmp_spec,
};
use crate::scene::{BodyIndex, EPSILON_RAW, gravity, gravity_spec};

verus! {

pub struct ManifoldData {
    pub pair: (BodyIndex, BodyIndex),
    pub penetration: Real,
    pub normal: Vec2,
    pub contacts: Vec<Vec2>,
}

pub struct Manifold {
    pub pair: (BodyIndex, BodyIndex),
    pub penetration: Real,
    pub normal: Vec2,
    pub contacts: Vec<Vec2>,
    pub e: Real,
    pub df: Real,
    pub sf: Real,
}

/// What a manifold holds, with its contact points as a sequence.
pub struct ManifoldView {
    pub pair: (BodyIndex, BodyIndex),
    pub penetration: Real,
    pub normal: Vec2,
    pub contacts: Seq<Vec2>,
    pub e: Real,
    pub df: Real,
    pub sf: Real,
}

impl View for Manifold {
    type V = ManifoldView;

    open spec fn view(&self) -> ManifoldView {
        ManifoldView {
            pair: self.pair,
            penetration: self.penetration,
            normal: self.normal,
            contacts: self.contacts@,
            e: self.e,
            df: self.df,
            sf: self.sf,
        }
    }
}

/// Contact geometry with a single contact point.
pub struct ContactPoint {
    pub penetration: Real,
    pub normal: Vec2,
    pub point: Vec2,
}

impl ManifoldData {
    /// `self` reports `c` for the pair `(i_a, i_b)`.
    pub open spec fn reports(&self, i_a: BodyIndex, i_b: BodyIndex, c: ContactPoint) -> bool {
        &&& self.pair == (i_a, i_b)
        &&& self.penetration == c.penetration
        &&& self.normal == c.normal
        &&& self.contacts@ == seq![c.point]
    }
}

/// Squares are never negative.
pub proof fn lemma_square_nonneg(x: Real)
    ensures
        x.mul_spec(x).raw >= 0,
{
    assert(x.raw * x.raw >= 0) by (nonlinear_arith);
    let p = x.raw * x.raw;
    assert(p / (SCALE as int) >= 0) by (nonlinear_arith)
        requires p >= 0;
}

/// Squared lengths are never negative.
pub proof fn lemma_len_sqr_nonneg(v: Vec2)
    ensures
        len_sqr_spec(v).raw >= 0,
{
    lemma_square_nonneg(v.x);
    lemma_square_nonneg(v.y);
}

/// Length of a vector.
pub open spec fn magnitude_spec(v: Vec2) -> Real {
    len_sqr_spec(v).sqrt_spec()
}

pub(crate) fn magnitude(v: Vec2) -> (r: Real)
    ensures
        r == magnitude_spec(v),
{
    proof {
        lemma_len_sqr_nonneg(v);
    }
    len_sqr(v).sqrt()
}

/// The vector scaled to unit length, or unchanged where its length is
/// within epsilon of zero.
pub open spec fn normalized_spec(v: Vec2) -> Vec2 {
    let m = magnitude_spec(v);
    if float_cmp_spec(m, Real { raw: 0 }) {
        v
    } else {
        v.div_spec(m)
    }
}

pub(crate) fn normalized(v: Vec2) -> (r: Vec2)
    ensures
        r == normalized_spec(v),
{
    let m = magnitude(v);
    if float_cmp(m, Real::zero()) {
        v
    } else {
        v.div(m)
    }
}

/// Contact between circles of radii `r_a` and `r_b` centred at `pos_a`
/// and `pos_b`, if they overlap.
pub open spec fn circle_circle_spec(r_a: Real, pos_a: Vec2, r_b: Real, pos_b: Vec2) -> Option<ContactPoint> {
    let normal = pos_b.sub_spec(pos_a);
    let dist_sqr = len_sqr_spec(normal);
    let radius = r_a.add_spec(r_b);
    if dist_sqr.raw >= radius.mul_spec(radius).raw {
        None
    } else {
        let distance = dist_sqr.sqrt_spec();
        if distance.raw == 0 {
            Some(ContactPoint {
                penetration: r_a,
                normal: Vec2 { x: Real { raw: SCALE }, y: Real { raw: 0 } },
                point: pos_a,
            })
        } else {
            let n = normal.div_spec(distance);
            Some(ContactPoint {
                penetration: radius.sub_spec(distance),
                normal: n,
                point: n.scale_spec(r_a).add_spec(pos_a),
            })
        }
    }
}

/// Contact between two circles: the circle of radius `a.1` on body `a.2`
/// (at index `a.0`) and the circle of radius `b.1` on body `b.2`.
pub fn circle_circle(a: (BodyIndex, Real, &Body), b: (BodyIndex, Real, &Body)) -> (r: Option<ManifoldData>)
    ensures
        match circle_circle_spec(a.1, a.2.position, b.1, b.2.position) {
            None => r is None,
            Some(c) => r matches Some(m) && m.reports(a.0, b.0, c),
        },
{
    let (i_a, radius_a, body_a) = a;
    let (i_b, radius_b, body_b) = b;
    let normal = body_b.position.sub(body_a.position);
    let dist_sqr = len_sqr(normal);
    let radius = radius_a.add(radius_b);
    if dist_sqr.raw >= radius.mul(radius).raw {
        return None;
    }
    proof {
        lemma_len_sqr_nonneg(normal);
    }
    let distance = dist_sqr.sqrt();
    if distance.raw == 0 {
        let contacts = vec![body_a.position];
        assert(contacts@ =~= seq![body_a.position]);
        Some(ManifoldData {
            pair: (i_a, i_b),
            penetration: radius_a,
            normal: Vec2::new(Real::from_int(1), Real::zero()),
            contacts,
        })
    } else {
        let normal_over_distance = normal.div(distance);
        let point = normal_over_distance.scale(radius_a).add(body_a.position);
        let contacts = vec![point];
        assert(contacts@ =~= seq![point]);
        Some(ManifoldData {
            pair: (i_a, i_b),
            penetration: radius.sub(distance),
            normal: normal_over_distance,
            contacts,
        })
    }
}

/// Signed distance from `center` to the supporting line of the face that
/// starts at `v`, along the face's normal.
pub open spec fn face_separation(center: Vec2, v: PolygonShapeVertex) -> Real {
    v.normal.dot_spec(center.sub_spec(v.position))
}

/// The first face of greatest separation among the first `k` faces, with
/// that separation.
pub open spec fn best_face(center: Vec2, vs: Seq<PolygonShapeVertex>, k: nat) -> (int, Real)
    decreases k,
{
    if k == 0 {
        (0, Real { raw: (-RAW_MAX) as i64 })
    } else {
        let (f, s) = best_face(center, vs, (k - 1) as nat);
        let t = face_separation(center, vs[k - 1]);
        if t.raw > s.raw {
            (k - 1, t)
        } else {
            (f, s)
        }
    }
}

/// Contact from a polygon vertex `v` (in the polygon's frame) to the circle
/// centre `center` (same frame).
pub open spec fn vertex_contact(
    center: Vec2,
    v: Vec2,
    radius: Real,
    penetration: Real,
    orientation: Mat2,
    pos_b: Vec2,
) -> Option<ContactPoint> {
    if center.sub_spec(v).dot_spec(center.sub_spec(v)).raw > radius.mul_spec(radius).raw {
        None
    } else {
        Some(ContactPoint {
            penetration,
            normal: normalized_spec(orientation.mul_vec_spec(v.sub_spec(center))),
            point: orientation.mul_vec_spec(v).add_spec(pos_b),
        })
    }
}

/// Contact between the circle of radius `radius` centred at `pos_a` and the
/// polygon with ring `vs`, rotation `orientation` and position `pos_b`.
pub open spec fn circle_polygon_spec(
    radius: Real,
    pos_a: Vec2,
    orientation: Mat2,
    vs: Seq<PolygonShapeVertex>,
    pos_b: Vec2,
) -> Option<ContactPoint> {
    let center = orientation.transpose_spec().mul_vec_spec(pos_a.sub_spec(pos_b));
    if exists|i: int| 0 <= i < vs.len() && (#[trigger] face_separation(center, vs[i])).raw > radius.raw {
        None
    } else {
        let (face, separation) = best_face(center, vs, vs.len());
        let v1 = vs[face];
        let v2 = vs[next_index_spec(face, vs.len() as int)];
        if separation.raw < EPSILON_RAW {
            let normal = orientation.mul_vec_spec(v1.normal).neg_spec();
            Some(ContactPoint { penetration: radius, normal, point: normal.scale_spec(radius).add_spec(pos_a) })
        } else {
            let dot1 = center.sub_spec(v1.position).dot_spec(v2.position.sub_spec(v1.position));
            let dot2 = center.sub_spec(v2.position).dot_spec(v1.position.sub_spec(v2.position));
            let penetration = radius.sub_spec(separation);
            if dot1.raw <= 0 {
                vertex_contact(center, v1.position, radius, penetration, orientation, pos_b)
            } else if dot2.raw <= 0 {
                vertex_contact(center, v2.position, radius, penetration, orientation, pos_b)
            } else if center.sub_spec(v1.position).dot_spec(v1.normal).raw >= radius.raw {
                None
            } else {
                let normal = orientation.mul_vec_spec(v1.normal).neg_spec();
                Some(ContactPoint { penetration, normal, point: normal.scale_spec(radius).add_spec(pos_a) })
            }
        }
    }
}

fn vertex_manifold(
    pair: (BodyIndex, BodyIndex),
    center: Vec2,
    v: Vec2,
    radius: Real,
    penetration: Real,
    orientation: &Mat2,
    pos_b: Vec2,
) -> (r: Option<ManifoldData>)
    ensures
        match vertex_contact(center, v, radius, penetration, *orientation, pos_b) {
            None => r is None,
            Some(c) => r matches Some(m) && m.reports(pair.0, pair.1, c),
        },
{
    if dist_sqr(center, v).raw > radius.mul(radius).raw {
        return None;
    }
    let n = normalized(orientation.mul_vec(v.sub(center)));
    let point = orientation.mul_vec(v).add(pos_b);
    let contacts = vec![point];
    assert(contacts@ =~= seq![point]);
    Some(ManifoldData { pair, penetration, normal: n, contacts })
}

fn face_manifold(pair: (BodyIndex, BodyIndex), normal: Vec2, radius: Real, penetration: Real, pos_a: Vec2) -> (r: ManifoldData)
    ensures
        r.reports(
            pair.0,
            pair.1,
            ContactPoint { penetration, normal, point: normal.scale_spec(radius).add_spec(pos_a) },
        ),
{
    let point = normal.scale(radius).add(pos_a);
    let contacts = vec![point];
    assert(contacts@ =~= seq![point]);
    ManifoldData { pair, penetration, normal, contacts }
}

/// Contact between the circle of radius `a.1` on body `a.2` (at index `a.0`)
/// and the polygon of rotation `b.1` and ring `b.2` on body `b.3` (at index
/// `b.0`). The normal points from the circle toward the polygon.
pub fn circle_polygon(
    a: (BodyIndex, Real, &Body),
    b: (BodyIndex, &Mat2, &Vec<PolygonShapeVertex>, &Body),
) -> (r: Option<ManifoldData>)
    requires
        b.2@.len() >= 1,
    ensures
        match circle_polygon_spec(a.1, a.2.position, *b.1, b.2@, b.3.position) {
            None => r is None,
            Some(c) => r matches Some(m) && m.reports(a.0, b.0, c),
        },
{
    let (i_a, radius_a, body_a) = a;
    let (i_b, orientation_b, vertices_b, body_b) = b;
    let pos_a = body_a.position;
    let pos_b = body_b.position;
    let center = orientation_b.transpose().mul_vec(pos_a.sub(pos_b));
    let n = vertices_b.len();
    let mut separation = Real { raw: -RAW_MAX };
    let mut face_normal: usize = 0;
    let mut i: usize = 0;
    while i < n
        invariant
            n == vertices_b@.len(),
            i <= n,
            pos_a == a.2.position,
            pos_b == b.3.position,
            radius_a == a.1,
            *orientation_b == *b.1,
            vertices_b@ == b.2@,
            center == orientation_b.transpose_spec().mul_vec_spec(pos_a.sub_spec(pos_b)),
            (face_normal as int, separation) == best_face(center, vertices_b@, i as nat),
            face_normal < n,
            forall|k: int| 0 <= k < i ==> (#[trigger] face_separation(center, vertices_b@[k])).raw <= radius_a.raw,
        decreases n - i,
    {
        let vertex = vertices_b[i];
        let s = vertex.normal.dot(center.sub(vertex.position));
        if s.raw > radius_a.raw {
            assert(vertex == vertices_b@[i as int]);
            assert(face_separation(center, vertices_b@[i as int]).raw > radius_a.raw);
            return None;
        }
        if s.raw > separation.raw {
            separation = s;
            face_normal = i;
        }
        i += 1;
    }
    let v1 = vertices_b[face_normal];
    let v2 = vertices_b[next_index(face_normal, n)];
    let pair = (i_a, i_b);
    if separation.raw < EPSILON_RAW {
        let normal = orientation_b.mul_vec(v1.normal).neg();
        return Some(face_manifold(pair, normal, radius_a, radius_a, pos_a));
    }
    let dot1 = center.sub(v1.position).dot(v2.position.sub(v1.position));
    let dot2 = center.sub(v2.position).dot(v1.position.sub(v2.position));
    let penetration = radius_a.sub(separation);
    if dot1.raw <= 0 {
        vertex_manifold(pair, center, v1.position, radius_a, penetration, orientation_b, pos_b)
    } else if dot2.raw <= 0 {
        vertex_manifold(pair, center, v2.position, radius_a, penetration, orientation_b, pos_b)
    } else {
        if center.sub(v1.position).dot(v1.normal).raw >= radius_a.raw {
            return None;
        }
        let normal = orientation_b.mul_vec(v1.normal).neg();
        Some(face_manifold(pair, normal, radius_a, penetration, pos_a))
    }
}

/// Velocity of body `b` relative to body `a` at the world point `contact`.
pub open spec fn relative_velocity_spec(a: Body, b: Body, contact: Vec2) -> Vec2 {
    b.velocity.add_spec(cross_real_vector_spec(b.angular_velocity, contact.sub_spec(b.position)))
        .sub_spec(a.velocity)
        .sub_spec(cross_real_vector_spec(a.angular_velocity, contact.sub_spec(a.position)))
}

pub fn relative_velocity(a: &Body, b: &Body, contact: Vec2) -> (r: Vec2)
    ensures
        r == relative_velocity_spec(*a, *b, contact),
{
    let ra = contact.sub(a.position);
    let rb = contact.sub(b.position);
    b.velocity.add(cross_real_vector(b.angular_velocity, rb)).sub(a.velocity).sub(
        cross_real_vector(a.angular_velocity, ra),
    )
}

/// The bodies meet at `contact` no faster than gravity acts over one tick
/// of length `delta` (up to epsilon): they are resting, not colliding.
pub open spec fn is_resting(a: Body, b: Body, contact: Vec2, delta: Real) -> bool {
    len_sqr_spec(relative_velocity_spec(a, b, contact)).raw
        < len_sqr_spec(gravity_spec().scale_spec(delta)).add_spec(Real { raw: EPSILON_RAW }).raw
}

/// Combined restitution: the smaller coefficient of the two bodies, or
/// zero where every contact point is resting.
pub open spec fn restitution_spec(a: Body, b: Body, contacts: Seq<Vec2>, delta: Real) -> Real {
    if forall|k: int| 0 <= k < contacts.len() ==> #[trigger] is_resting(a, b, contacts[k], delta) {
        Real { raw: 0 }
    } else {
        a.restitution.min_spec(b.restitution)
    }
}

impl ManifoldData {
    /// Resolves the contact's physical parameters for this tick: combined
    /// restitution, and static and dynamic friction taken from body A.
    pub fn initialize(&self, delta: Real, body_a: &Body, body_b: &Body) -> (r: Manifold)
        ensures
            r.pair == self.pair,
            r.penetration == self.penetration,
            r.normal == self.normal,
            r.contacts@ == self.contacts@,
            r.e == restitution_spec(*body_a, *body_b, self.contacts@, delta),
            r.sf == body_a.static_friction.abs_spec(),
            r.df == body_a.dynamic_friction.abs_spec(),
    {
        let sf = body_a.static_friction.abs();
        let df = body_a.dynamic_friction.abs();
        let threshold = len_sqr(gravity().scale(delta)).add(Real { raw: EPSILON_RAW });
        let n = self.contacts.len();
        let mut all_resting = true;
        let mut k: usize = 0;
        while k < n
            invariant
                n == self.contacts@.len(),
                k <= n,
                threshold == len_sqr_spec(gravity_spec().scale_spec(delta)).add_spec(Real { raw: EPSILON_RAW }),
                all_resting == (forall|t: int| 0 <= t < k ==> #[trigger] is_resting(*body_a, *body_b, self.contacts@[t], delta)),
            decreases n - k,
        {
            let rv = relative_velocity(body_a, body_b, self.contacts[k]);
            let resting = len_sqr(rv).raw < threshold.raw;
            assert(resting == is_resting(*body_a, *body_b, self.contacts@[k as int], delta));
            proof {
                if all_resting && resting {
                    assert forall|t: int| 0 <= t < k + 1 implies #[trigger] is_resting(
                        *body_a,
                        *body_b,
                        self.contacts@[t],
                        delta,
                    ) by {
                        if t < k {
                            assert(is_resting(*body_a, *body_b, self.contacts@[t], delta));
                        }
                    }
                }
            }
            if !resting {
                all_resting = false;
            }
            k += 1;
        }
        let e = if all_resting {
            Real::zero()
        } else {
            body_a.restitution.min(body_b.restitution)
        };
        let mut contacts: Vec<Vec2> = Vec::new();
        let mut j: usize = 0;
        while j < n
            invariant
                n == self.contacts@.len(),
                j <= n,
                contacts@ == self.contacts@.subrange(0, j as int),
            decreases n - j,
        {
            contacts.push(self.contacts[j]);
            j += 1;
            assert(contacts@ =~= self.contacts@.subrange(0, j as int));
        }
        assert(contacts@ =~= self.contacts@);
        Manifold { pair: self.pair, penetration: self.penetration, normal: self.normal, contacts, e, df, sf }
    }
}

} // verus!
