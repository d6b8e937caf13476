//! The world: bodies, contact generation and the per-tick solver.
use vstd::prelude::*;
use crate::fixed::{Real, SCALE, RAW_MAX, div_trunc, fits, lemma_mul_neg, lemma_mul_nonneg};
use crate::types::Vec2;
use crate::body::{Body, Shape, impulse_applied, integrate_forces_spec, integrate_velocity_spec, with_orient};
use crate::collision::{
    Manifold, ManifoldView, ManifoldData, ContactPoint, circle_circle, circle_circle_spec, circle_polygon,
    circle_polygon_spec, restitution_spec, relative_velocity, relative_velocity_spec, normalized, normalized_spec};
use crate::operations::{cross_vectors, cross_vectors_spec, float_cmp, float_cmp_spec};

verus! {

/// Position of a body in the world's list.
pub type BodyIndex = usize;

/// Tolerance of near-equality tests (0.0001), in raw units.
pub const EPSILON_RAW: i64 = 100_000;

/// Downward acceleration of gravity (500 units per second squared, y down), in raw units.
pub const GRAVITY_Y_RAW: i64 = 500_000_000_000;

/// The acceleration of gravity.
pub open spec fn gravity_spec() -> Vec2 {
    Vec2 { x: Real { raw: 0 }, y: Real { raw: GRAVITY_Y_RAW } }
}

/// The acceleration of gravity.
pub fn gravity() -> (r: Vec2)
    ensures
        r == gravity_spec(),
{
    Vec2 { x: Real::zero(), y: Real { raw: GRAVITY_Y_RAW } }
}

/// Two distinct bodies of `bodies`, borrowed mutably at once.
fn get_two_mut(bodies: &mut Vec<Body>, i_a: BodyIndex, i_b: BodyIndex) -> (r: (&mut Body, &mut Body))
    requires
        i_a != i_b,
        i_a < old(bodies)@.len(),
        i_b < old(bodies)@.len(),
    ensures
        *r.0 == old(bodies)@[i_a as int],
        *r.1 == old(bodies)@[i_b as int],
        final(bodies)@ == old(bodies)@.update(i_a as int, *final(r.0)).update(i_b as int, *final(r.1)),
{
    if i_a < i_b {
        let (start, end) = bodies.as_mut_slice().split_at_mut(i_a + 1);
        let start_len = start.len();
        (&mut start[i_a], &mut end[i_b - start_len])
    } else {
        let (start, end) = bodies.as_mut_slice().split_at_mut(i_b + 1);
        let start_len = start.len();
        (&mut end[i_a - start_len], &mut start[i_b])
    }
}

/// Penetration that positional correction leaves alone (0.05), in raw units.
pub const SLOP_RAW: i64 = 50_000_000;

/// Share of the remaining penetration corrected per tick (0.4), in raw units.
pub const PERCENT_RAW: i64 = 400_000_000;

/// Friction clamp: the tangent impulse `jt` where it lies inside the static
/// cone `|jt| < j * sf`, else the dynamic impulse `-j * df`.
pub open spec fn clamp_friction_spec(jt: Real, j: Real, sf: Real, df: Real) -> Real {
    if jt.abs_spec().raw < j.mul_spec(sf).raw {
        jt
    } else {
        j.neg_spec().mul_spec(df)
    }
}

/// Scalar tangent impulse after Coulomb's clamp, for a normal impulse `j`
/// and a raw tangent impulse `jt`.
pub fn clamp_friction(jt: Real, j: Real, sf: Real, df: Real) -> (r: Real)
    ensures
        r == clamp_friction_spec(jt, j, sf, df),
{
    if jt.abs().raw < j.mul(sf).raw {
        jt
    } else {
        j.neg().mul(df)
    }
}

/// Effective inverse mass of the pair along `n` at the arms `ra` and `rb`.
pub open spec fn inv_mass_sum_spec(a: Body, b: Body, ra: Vec2, rb: Vec2, n: Vec2) -> Real {
    let ra_cross_n = cross_vectors_spec(ra, n);
    let rb_cross_n = cross_vectors_spec(rb, n);
    a.inv_mass.add_spec(b.inv_mass)
        .add_spec(ra_cross_n.mul_spec(ra_cross_n).mul_spec(a.inv_inertia))
        .add_spec(rb_cross_n.mul_spec(rb_cross_n).mul_spec(b.inv_inertia))
}

/// The number of contact points of a manifold, as a `Real`.
pub open spec fn contact_count(m: ManifoldView) -> Real {
    Real { raw: (m.contacts.len() * SCALE) as i64 }
}

/// The two bodies after the sequential impulse at one contact point of `m`:
/// a normal impulse with restitution, then a clamped friction impulse.
pub open spec fn contact_impulse(a: Body, b: Body, m: ManifoldView, contact: Vec2) -> (Body, Body) {
    let ra = contact.sub_spec(a.position);
    let rb = contact.sub_spec(b.position);
    let contact_vel = relative_velocity_spec(a, b, contact).dot_spec(m.normal);
    let inv_mass_sum = inv_mass_sum_spec(a, b, ra, rb, m.normal);
    let count = contact_count(m);
    if contact_vel.raw > 0 || inv_mass_sum.raw == 0 {
        (a, b)
    } else {
        let j = Real { raw: SCALE }.add_spec(m.e).neg_spec().mul_spec(contact_vel).div_spec(
            inv_mass_sum,
        ).div_spec(count);
        let impulse = m.normal.scale_spec(j);
        let a1 = impulse_applied(a, impulse.neg_spec(), ra);
        let b1 = impulse_applied(b, impulse, rb);
        let rv = relative_velocity_spec(a1, b1, contact);
        let t = normalized_spec(rv.sub_spec(m.normal.scale_spec(rv.dot_spec(m.normal))));
        let jt = rv.dot_spec(t).neg_spec().div_spec(inv_mass_sum).div_spec(count);
        if float_cmp_spec(jt, Real { raw: 0 }) {
            (a1, b1)
        } else {
            let tangent_impulse = t.scale_spec(clamp_friction_spec(jt, j, m.sf, m.df));
            (impulse_applied(a1, tangent_impulse.neg_spec(), ra), impulse_applied(b1, tangent_impulse, rb))
        }
    }
}

/// The two bodies after the impulses at the first `k` contact points of `m`.
pub open spec fn contact_impulses(a: Body, b: Body, m: ManifoldView, k: nat) -> (Body, Body)
    decreases k,
{
    if k == 0 {
        (a, b)
    } else {
        let (a1, b1) = contact_impulses(a, b, m, (k - 1) as nat);
        contact_impulse(a1, b1, m, m.contacts[k - 1])
    }
}

/// One solver pass over the manifold `m` for its two bodies. A pair whose
/// inverse masses sum to about zero is brought to rest instead.
#[verifier::opaque]
pub open spec fn manifold_impulse(a: Body, b: Body, m: ManifoldView) -> (Body, Body) {
    if float_cmp_spec(a.inv_mass.add_spec(b.inv_mass), Real { raw: 0 }) {
        (
            Body { velocity: Vec2 { x: Real { raw: 0 }, y: Real { raw: 0 } }, ..a },
            Body { velocity: Vec2 { x: Real { raw: 0 }, y: Real { raw: 0 } }, ..b },
        )
    } else {
        contact_impulses(a, b, m, m.contacts.len())
    }
}

fn resolve_contact(a: &mut Body, b: &mut Body, m: &Manifold, contact: Vec2)
    requires
        1 <= m.contacts@.len() <= 2,
    ensures
        (*final(a), *final(b)) == contact_impulse(*old(a), *old(b), m@, contact),
{
    let ra = contact.sub(a.position);
    let rb = contact.sub(b.position);
    let contact_vel = relative_velocity(a, b, contact).dot(m.normal);
    let ra_cross_n = cross_vectors(ra, m.normal);
    let rb_cross_n = cross_vectors(rb, m.normal);
    let inv_mass_sum = a.inv_mass.add(b.inv_mass).add(ra_cross_n.mul(ra_cross_n).mul(a.inv_inertia)).add(
        rb_cross_n.mul(rb_cross_n).mul(b.inv_inertia),
    );
    if contact_vel.raw > 0 || inv_mass_sum.raw == 0 {
        return ;
    }
    let count = Real::from_int(m.contacts.len() as i32);
    let j = Real::from_int(1).add(m.e).neg().mul(contact_vel).div(inv_mass_sum).div(count);
    let impulse = m.normal.scale(j);
    a.apply_impulse(impulse.neg(), ra);
    b.apply_impulse(impulse, rb);
    let rv = relative_velocity(a, b, contact);
    let t = normalized(rv.sub(m.normal.scale(rv.dot(m.normal))));
    let jt = rv.dot(t).neg().div(inv_mass_sum).div(count);
    if float_cmp(jt, Real::zero()) {
        return ;
    }
    let tangent_impulse = t.scale(clamp_friction(jt, j, m.sf, m.df));
    a.apply_impulse(tangent_impulse.neg(), ra);
    b.apply_impulse(tangent_impulse, rb);
}

fn resolve_manifold(a: &mut Body, b: &mut Body, m: &Manifold)
    requires
        1 <= m.contacts@.len() <= 2,
    ensures
        (*final(a), *final(b)) == manifold_impulse(*old(a), *old(b), m@),
{
    reveal(manifold_impulse);
    if float_cmp(a.inv_mass.add(b.inv_mass), Real::zero()) {
        a.velocity = Vec2::zero();
        b.velocity = Vec2::zero();
        return ;
    }
    let n = m.contacts.len();
    let mut k: usize = 0;
    while k < n
        invariant
            n == m.contacts@.len(),
            1 <= n <= 2,
            k <= n,
            (*a, *b) == contact_impulses(*old(a), *old(b), m@, k as nat),
        decreases n - k,
    {
        resolve_contact(a, b, m, m.contacts[k]);
        k += 1;
    }
}

/// The two bodies after positional correction for `m`: each dynamic body is
/// moved apart along the normal by its share of `percent` of the
/// penetration beyond the slop.
#[verifier::opaque]
pub open spec fn corrected(a: Body, b: Body, m: ManifoldView) -> (Body, Body) {
    let sum = a.inv_mass.add_spec(b.inv_mass);
    if sum.raw == 0 {
        (a, b)
    } else {
        let correction = m.normal.scale_spec(correction_magnitude(m.penetration, sum));
        (
            if a.inv_mass.raw == 0 {
                a
            } else {
                Body { position: a.position.sub_spec(correction.scale_spec(a.inv_mass)), ..a }
            },
            if b.inv_mass.raw == 0 {
                b
            } else {
                Body { position: b.position.add_spec(correction.scale_spec(b.inv_mass)), ..b }
            },
        )
    }
}

/// Length of the correction vector for penetration `penetration` and
/// summed inverse mass `sum`.
pub open spec fn correction_magnitude(penetration: Real, sum: Real) -> Real {
    penetration.sub_spec(Real { raw: SLOP_RAW }).max_spec(Real { raw: 0 }).div_spec(sum).mul_spec(
        Real { raw: PERCENT_RAW },
    )
}

fn correct_positions(a: &mut Body, b: &mut Body, m: &Manifold)
    ensures
        (*final(a), *final(b)) == corrected(*old(a), *old(b), m@),
{
    reveal(corrected);
    let sum = a.inv_mass.add(b.inv_mass);
    if sum.raw == 0 {
        return ;
    }
    let magnitude = m.penetration.sub(Real { raw: SLOP_RAW }).max(Real::zero()).div(sum).mul(
        Real { raw: PERCENT_RAW },
    );
    let correction = m.normal.scale(magnitude);
    if a.inv_mass.raw != 0 {
        a.position = a.position.sub(correction.scale(a.inv_mass));
    }
    if b.inv_mass.raw != 0 {
        b.position = b.position.add(correction.scale(b.inv_mass));
    }
}

/// A contact found by the narrow phase: the ordered pair of body indices
/// (circle first) and the contact geometry.
pub struct PairContact {
    pub first: BodyIndex,
    pub second: BodyIndex,
    pub contact: ContactPoint,
}

/// No narrow-phase test exists for two polygons.
pub open spec fn supported_pair(a: Body, b: Body) -> bool {
    (a.is_static() && b.is_static()) || a.shape.is_circle() || b.shape.is_circle()
}

/// Contact for bodies `i < j` of `bodies`: pairs of static bodies are
/// skipped, and the test is chosen by the pair of shapes.
#[verifier::opaque]
pub open spec fn pair_contact(bodies: Seq<Body>, i: int, j: int) -> Option<PairContact> {
    let a = bodies[i];
    let b = bodies[j];
    if a.is_static() && b.is_static() {
        None
    } else {
        match (a.shape, b.shape) {
            (Shape::Circle { radius: r1 }, Shape::Circle { radius: r2 }) => match circle_circle_spec(
                r1,
                a.position,
                r2,
                b.position,
            ) {
                Some(c) => Some(PairContact { first: i as usize, second: j as usize, contact: c }),
                None => None,
            },
            (Shape::Circle { radius }, Shape::Polygon { orientation, vertices }) => match circle_polygon_spec(
                radius,
                a.position,
                orientation,
                vertices@,
                b.position,
            ) {
                Some(c) => Some(PairContact { first: i as usize, second: j as usize, contact: c }),
                None => None,
            },
            (Shape::Polygon { orientation, vertices }, Shape::Circle { radius }) => match circle_polygon_spec(
                radius,
                b.position,
                orientation,
                vertices@,
                a.position,
            ) {
                Some(c) => Some(PairContact { first: j as usize, second: i as usize, contact: c }),
                None => None,
            },
            _ => None,
        }
    }
}

/// Contacts of the pairs `(i, k)` for `i < k < j`, in order of `k`.
pub open spec fn row_contacts(bodies: Seq<Body>, i: int, j: int) -> Seq<PairContact>
    decreases j - i,
{
    if j <= i + 1 {
        seq![]
    } else {
        let prev = row_contacts(bodies, i, j - 1);
        match pair_contact(bodies, i, j - 1) {
            Some(c) => prev.push(c),
            None => prev,
        }
    }
}

/// Contacts of all pairs whose lower index is below `i`, in order.
pub open spec fn contacts_before(bodies: Seq<Body>, i: int) -> Seq<PairContact>
    decreases i,
{
    if i <= 0 {
        seq![]
    } else {
        contacts_before(bodies, i - 1) + row_contacts(bodies, i - 1, bodies.len() as int)
    }
}

/// All contacts of a tick, in the order of the all-pairs scan.
pub open spec fn contact_list(bodies: Seq<Body>) -> Seq<PairContact> {
    contacts_before(bodies, bodies.len() as int)
}

/// `list` holds the contacts `spec`, one manifold for each.
pub open spec fn lists_contacts(list: Seq<ManifoldData>, spec: Seq<PairContact>) -> bool {
    &&& list.len() == spec.len()
    &&& forall|k: int|
        0 <= k < list.len() ==> (#[trigger] list[k]).reports(spec[k].first, spec[k].second, spec[k].contact)
}

/// The world's bodies are well formed, and no two polygons can meet.
pub open spec fn bodies_wf(bodies: Seq<Body>) -> bool {
    &&& forall|i: int| 0 <= i < bodies.len() ==> (#[trigger] bodies[i]).wf()
    &&& forall|i: int, j: int|
        0 <= i < j < bodies.len() ==> supported_pair(#[trigger] bodies[i], #[trigger] bodies[j])
}

/// The narrow-phase test for bodies `i < j`.
fn pair_test(bodies: &Vec<Body>, i: usize, j: usize) -> (r: Option<ManifoldData>)
    requires
        i < j < bodies@.len(),
        bodies_wf(bodies@),
    ensures
        match pair_contact(bodies@, i as int, j as int) {
            None => r is None,
            Some(c) => r matches Some(m) && m.reports(c.first, c.second, c.contact),
        },
        r matches Some(m) ==> valid_manifold(m.pair, m.contacts@.len(), bodies@.len()),
{
    reveal(pair_contact);
    let body_a = &bodies[i];
    let body_b = &bodies[j];
    assert(body_a.wf() && body_b.wf());
    assert(supported_pair(bodies@[i as int], bodies@[j as int]));
    if body_a.inv_mass.raw == 0 && body_b.inv_mass.raw == 0 {
        return None;
    }
    match (&body_a.shape, &body_b.shape) {
        (Shape::Circle { radius: r1 }, Shape::Circle { radius: r2 }) => {
            circle_circle((i, *r1, body_a), (j, *r2, body_b))
        },
        (Shape::Circle { radius }, Shape::Polygon { orientation, vertices }) => {
            circle_polygon((i, *radius, body_a), (j, orientation, vertices, body_b))
        },
        (Shape::Polygon { orientation, vertices }, Shape::Circle { radius }) => {
            circle_polygon((j, *radius, body_b), (i, orientation, vertices, body_a))
        },
        (Shape::Polygon { .. }, Shape::Polygon { .. }) => None,
    }
}

/// A manifold names two distinct bodies of a world of `n` and holds one or
/// two contact points.
pub open spec fn valid_manifold(pair: (BodyIndex, BodyIndex), contacts: nat, n: nat) -> bool {
    pair.0 != pair.1 && pair.0 < n && pair.1 < n && 1 <= contacts <= 2
}

/// `new` is `old` after a tick: materials, mass properties and the kind
/// and validity of the shape are kept, and a static body has not moved.
pub open spec fn kept(old: Body, new: Body) -> bool {
    &&& new.inv_mass == old.inv_mass
    &&& new.inv_inertia == old.inv_inertia
    &&& new.mass == old.mass
    &&& new.moment_inertia == old.moment_inertia
    &&& new.restitution == old.restitution
    &&& new.static_friction == old.static_friction
    &&& new.dynamic_friction == old.dynamic_friction
    &&& new.shape.is_circle() == old.shape.is_circle()
    &&& new.shape.wf() == old.shape.wf()
    &&& old.is_static() ==> new.position == old.position && new.orient == old.orient && new.shape == old.shape
}

/// A lone body's tick: semi-implicit Euler integration, then the forces are
/// cleared.
pub open spec fn free_tick(b: Body, delta: Real) -> Body {
    let moved = integrate_velocity_spec(integrate_forces_spec(b, delta), delta);
    Body { force: Vec2 { x: Real { raw: 0 }, y: Real { raw: 0 } }, torque: Real { raw: 0 }, ..moved }
}

proof fn lemma_manifold_impulse_kept(a: Body, b: Body, m: ManifoldView)
    ensures
        kept(a, manifold_impulse(a, b, m).0),
        kept(b, manifold_impulse(a, b, m).1),
{
    reveal(manifold_impulse);
    lemma_contact_impulses_kept(a, b, m, m.contacts.len());
}

proof fn lemma_corrected_kept(a: Body, b: Body, m: ManifoldView)
    ensures
        kept(a, corrected(a, b, m).0),
        kept(b, corrected(a, b, m).1),
{
    reveal(corrected);
}

proof fn lemma_contact_impulses_kept(a: Body, b: Body, m: ManifoldView, k: nat)
    requires
        k <= m.contacts.len(),
    ensures
        kept(a, contact_impulses(a, b, m, k).0),
        kept(b, contact_impulses(a, b, m, k).1),
    decreases k,
{
    if k > 0 {
        lemma_contact_impulses_kept(a, b, m, (k - 1) as nat);
    }
}

/// The manifold the solver builds for the contact `c` against `bodies`:
/// restitution from both bodies, friction from the first.
pub open spec fn initialized(c: PairContact, bodies: Seq<Body>, delta: Real) -> ManifoldView {
    let a = bodies[c.first as int];
    let b = bodies[c.second as int];
    ManifoldView {
        pair: (c.first, c.second),
        penetration: c.contact.penetration,
        normal: c.contact.normal,
        contacts: seq![c.contact.point],
        e: restitution_spec(a, b, seq![c.contact.point], delta),
        df: a.dynamic_friction.abs_spec(),
        sf: a.static_friction.abs_spec(),
    }
}

/// The bodies after the solver has visited the first `k` manifolds of `ms`.
pub open spec fn impulse_pass(bodies: Seq<Body>, ms: Seq<ManifoldView>, k: nat) -> Seq<Body>
    decreases k,
{
    if k == 0 {
        bodies
    } else {
        let prev = impulse_pass(bodies, ms, (k - 1) as nat);
        let m = ms[k - 1];
        let r = manifold_impulse(prev[m.pair.0 as int], prev[m.pair.1 as int], m);
        prev.update(m.pair.0 as int, r.0).update(m.pair.1 as int, r.1)
    }
}

/// The bodies after `p` full solver passes over `ms`.
pub open spec fn impulse_passes(bodies: Seq<Body>, ms: Seq<ManifoldView>, p: nat) -> Seq<Body>
    decreases p,
{
    if p == 0 {
        bodies
    } else {
        impulse_pass(impulse_passes(bodies, ms, (p - 1) as nat), ms, ms.len())
    }
}

/// The bodies after positional correction for the first `k` manifolds.
pub open spec fn correction_pass(bodies: Seq<Body>, ms: Seq<ManifoldView>, k: nat) -> Seq<Body>
    decreases k,
{
    if k == 0 {
        bodies
    } else {
        let prev = correction_pass(bodies, ms, (k - 1) as nat);
        let m = ms[k - 1];
        let r = corrected(prev[m.pair.0 as int], prev[m.pair.1 as int], m);
        prev.update(m.pair.0 as int, r.0).update(m.pair.1 as int, r.1)
    }
}

/// The body with its accumulated force and torque cleared.
pub open spec fn forces_cleared(b: Body) -> Body {
    Body { force: Vec2 { x: Real { raw: 0 }, y: Real { raw: 0 } }, torque: Real { raw: 0 }, ..b }
}

/// The world after one tick of length `delta` with `iterations` solver
/// passes.
pub open spec fn step_spec(bodies: Seq<Body>, iterations: nat, delta: Real) -> Seq<Body> {
    let forced = bodies.map_values(|b: Body| integrate_forces_spec(b, delta));
    let ms = contact_list(bodies).map_values(|c: PairContact| initialized(c, forced, delta));
    let solved = impulse_passes(forced, ms, iterations);
    let moved = solved.map_values(|b: Body| integrate_velocity_spec(b, delta));
    correction_pass(moved, ms, ms.len()).map_values(|b: Body| forces_cleared(b))
}

/// The views of a list of manifolds.
pub open spec fn views(ms: Seq<Manifold>) -> Seq<ManifoldView> {
    ms.map_values(|m: Manifold| m@)
}

pub struct Scene {
    /// Solver passes over all manifolds per tick.
    pub iterations: u32,
    pub bodies: Vec<Body>,
}

impl Scene {
    /// An empty world whose solver makes ten passes per tick.
    pub fn new() -> (r: Scene)
        ensures
            r.bodies@.len() == 0,
            r.iterations == 10,
    {
        Scene { iterations: 10, bodies: Vec::new() }
    }

    /// Appends `body` to the world.
    pub fn add(&mut self, body: Body)
        ensures
            final(self).bodies@ == old(self).bodies@.push(body),
            final(self).iterations == old(self).iterations,
    {
        self.bodies.push(body);
    }

    /// Whether `step` may run: every body is well formed and no two
    /// polygons, one of them dynamic, could meet (no test exists for them).
    pub fn is_valid(&self) -> (r: bool)
        ensures
            r == bodies_wf(self.bodies@),
    {
        let n = self.bodies.len();
        let mut i: usize = 0;
        while i < n
            invariant
                n == self.bodies@.len(),
                i <= n,
                forall|k: int| 0 <= k < i ==> (#[trigger] self.bodies@[k]).wf(),
                forall|k: int, l: int|
                    0 <= k < i && k < l < n ==> supported_pair(#[trigger] self.bodies@[k], #[trigger] self.bodies@[l]),
            decreases n - i,
        {
            let a = &self.bodies[i];
            let a_ok = match &a.shape {
                Shape::Circle { .. } => true,
                Shape::Polygon { vertices, .. } => vertices.len() >= 3,
            };
            if !a_ok {
                return false;
            }
            let mut j: usize = i + 1;
            while j < n
                invariant
                    n == self.bodies@.len(),
                    i < n,
                    i + 1 <= j <= n,
                    *a == self.bodies@[i as int],
                    forall|l: int| i < l < j ==> supported_pair(self.bodies@[i as int], #[trigger] self.bodies@[l]),
                decreases n - j,
            {
                let b = &self.bodies[j];
                let both_static = a.inv_mass.raw == 0 && b.inv_mass.raw == 0;
                let a_circle = match &a.shape {
                    Shape::Circle { .. } => true,
                    Shape::Polygon { .. } => false,
                };
                let b_circle = match &b.shape {
                    Shape::Circle { .. } => true,
                    Shape::Polygon { .. } => false,
                };
                if !(both_static || a_circle || b_circle) {
                    assert(!supported_pair(self.bodies@[i as int], self.bodies@[j as int]));
                    return false;
                }
                j += 1;
            }
            i += 1;
        }
        true
    }

    /// The narrow-phase contacts of all pairs of bodies, in scan order.
    fn generate_contact_list(&self) -> (r: Vec<ManifoldData>)
        requires
            bodies_wf(self.bodies@),
        ensures
            lists_contacts(r@, contact_list(self.bodies@)),
            forall|k: int|
                0 <= k < r@.len() ==> valid_manifold(
                    (#[trigger] r@[k]).pair,
                    r@[k].contacts@.len(),
                    self.bodies@.len(),
                ),
    {
        let n = self.bodies.len();
        let mut ret: Vec<ManifoldData> = Vec::new();
        let mut i: usize = 0;
        while i < n
            invariant
                n == self.bodies@.len(),
                i <= n,
                bodies_wf(self.bodies@),
                lists_contacts(ret@, contacts_before(self.bodies@, i as int)),
                forall|k: int|
                    0 <= k < ret@.len() ==> valid_manifold((#[trigger] ret@[k]).pair, ret@[k].contacts@.len(), n as nat),
            decreases n - i,
        {
            let mut j: usize = i + 1;
            while j < n
                invariant
                    n == self.bodies@.len(),
                    i < n,
                    i + 1 <= j <= n,
                    bodies_wf(self.bodies@),
                    lists_contacts(
                        ret@,
                        contacts_before(self.bodies@, i as int) + row_contacts(self.bodies@, i as int, j as int),
                    ),
                    forall|k: int|
                        0 <= k < ret@.len() ==> valid_manifold(
                            (#[trigger] ret@[k]).pair,
                            ret@[k].contacts@.len(),
                            n as nat,
                        ),
                decreases n - j,
            {
                let found = pair_test(&self.bodies, i, j);
                let ghost before = contacts_before(self.bodies@, i as int);
                let ghost row = row_contacts(self.bodies@, i as int, j as int);
                match found {
                    Some(m) => {
                        let ghost c = pair_contact(self.bodies@, i as int, j as int)->Some_0;
                        ret.push(m);
                        assert((before + row).push(c) =~= before + row.push(c));
                    },
                    None => {},
                }
                j += 1;
            }
            i += 1;
        }
        ret
    }

    /// One solver pass over the manifold `m`.
    fn apply_impulse(&mut self, m: &Manifold)
        requires
            valid_manifold(m.pair, m.contacts@.len(), old(self).bodies@.len()),
        ensures
            final(self).iterations == old(self).iterations,
            final(self).bodies@ == old(self).bodies@.update(
                m.pair.0 as int,
                manifold_impulse(old(self).bodies@[m.pair.0 as int], old(self).bodies@[m.pair.1 as int], m@).0,
            ).update(
                m.pair.1 as int,
                manifold_impulse(old(self).bodies@[m.pair.0 as int], old(self).bodies@[m.pair.1 as int], m@).1,
            ),
    {
        let (body_a, body_b) = get_two_mut(&mut self.bodies, m.pair.0, m.pair.1);
        resolve_manifold(body_a, body_b, m);
    }

    /// Positional correction for the manifold `m`.
    fn positional_correct(&mut self, m: &Manifold)
        requires
            valid_manifold(m.pair, m.contacts@.len(), old(self).bodies@.len()),
        ensures
            final(self).iterations == old(self).iterations,
            final(self).bodies@ == old(self).bodies@.update(
                m.pair.0 as int,
                corrected(old(self).bodies@[m.pair.0 as int], old(self).bodies@[m.pair.1 as int], m@).0,
            ).update(
                m.pair.1 as int,
                corrected(old(self).bodies@[m.pair.0 as int], old(self).bodies@[m.pair.1 as int], m@).1,
            ),
    {
        let (body_a, body_b) = get_two_mut(&mut self.bodies, m.pair.0, m.pair.1);
        correct_positions(body_a, body_b, m);
    }
    fn integrate_all_forces(&mut self, delta: Real)
        ensures
            final(self).bodies@ == old(self).bodies@.map_values(|b: Body| integrate_forces_spec(b, delta)),
            final(self).iterations == old(self).iterations,
            final(self).bodies@.len() == old(self).bodies@.len(),
            forall|k: int|
                0 <= k < old(self).bodies@.len() ==> #[trigger] final(self).bodies@[k] == integrate_forces_spec(
                    old(self).bodies@[k],
                    delta,
                ),
    {
        let n = self.bodies.len();
        let mut i: usize = 0;
        while i < n
            invariant
                n == self.bodies@.len() == old(self).bodies@.len(),
                self.iterations == old(self).iterations,
                i <= n,
                forall|k: int| 0 <= k < i ==> #[trigger] self.bodies@[k] == integrate_forces_spec(old(self).bodies@[k], delta),
                forall|k: int| i <= k < n ==> #[trigger] self.bodies@[k] == old(self).bodies@[k],
            decreases n - i,
        {
            self.bodies[i].integrate_forces(delta);
            i += 1;
        }
        assert(self.bodies@ =~= old(self).bodies@.map_values(|b: Body| integrate_forces_spec(b, delta)));
    }

    fn integrate_all_velocities(&mut self, delta: Real)
        ensures
            final(self).bodies@ == old(self).bodies@.map_values(|b: Body| integrate_velocity_spec(b, delta)),
            final(self).iterations == old(self).iterations,
            final(self).bodies@.len() == old(self).bodies@.len(),
            forall|k: int|
                0 <= k < old(self).bodies@.len() ==> #[trigger] final(self).bodies@[k] == integrate_velocity_spec(
                    old(self).bodies@[k],
                    delta,
                ),
    {
        let n = self.bodies.len();
        let mut i: usize = 0;
        while i < n
            invariant
                n == self.bodies@.len() == old(self).bodies@.len(),
                self.iterations == old(self).iterations,
                i <= n,
                forall|k: int| 0 <= k < i ==> #[trigger] self.bodies@[k] == integrate_velocity_spec(old(self).bodies@[k], delta),
                forall|k: int| i <= k < n ==> #[trigger] self.bodies@[k] == old(self).bodies@[k],
            decreases n - i,
        {
            self.bodies[i].integrate_velocity(delta);
            i += 1;
        }
        assert(self.bodies@ =~= old(self).bodies@.map_values(|b: Body| integrate_velocity_spec(b, delta)));
    }

    fn clear_forces(&mut self)
        ensures
            final(self).bodies@ == old(self).bodies@.map_values(|b: Body| forces_cleared(b)),
            final(self).iterations == old(self).iterations,
            final(self).bodies@.len() == old(self).bodies@.len(),
            forall|k: int|
                0 <= k < old(self).bodies@.len() ==> #[trigger] final(self).bodies@[k] == (Body {
                    force: Vec2 { x: Real { raw: 0 }, y: Real { raw: 0 } },
                    torque: Real { raw: 0 },
                    ..old(self).bodies@[k]
                }),
    {
        let n = self.bodies.len();
        let mut i: usize = 0;
        while i < n
            invariant
                n == self.bodies@.len() == old(self).bodies@.len(),
                self.iterations == old(self).iterations,
                i <= n,
                forall|k: int|
                    0 <= k < i ==> #[trigger] self.bodies@[k] == (Body {
                        force: Vec2 { x: Real { raw: 0 }, y: Real { raw: 0 } },
                        torque: Real { raw: 0 },
                        ..old(self).bodies@[k]
                    }),
                forall|k: int| i <= k < n ==> #[trigger] self.bodies@[k] == old(self).bodies@[k],
            decreases n - i,
        {
            self.bodies[i].force = Vec2::zero();
            self.bodies[i].torque = Real::zero();
            i += 1;
        }
        assert(self.bodies@ =~= old(self).bodies@.map_values(|b: Body| forces_cleared(b)));
    }

    /// Resolves each contact's physical parameters against the current
    /// velocities.
    fn initialize_all(&self, data: &Vec<ManifoldData>, delta: Real, Ghost(found): Ghost<Seq<PairContact>>) -> (r: Vec<Manifold>)
        requires
            lists_contacts(data@, found),
            forall|k: int|
                0 <= k < data@.len() ==> valid_manifold(
                    (#[trigger] data@[k]).pair,
                    data@[k].contacts@.len(),
                    self.bodies@.len(),
                ),
        ensures
            views(r@) == found.map_values(|c: PairContact| initialized(c, self.bodies@, delta)),
            forall|k: int|
                0 <= k < r@.len() ==> valid_manifold((#[trigger] r@[k]).pair, r@[k].contacts@.len(), self.bodies@.len()),
    {
        let mut contacts: Vec<Manifold> = Vec::new();
        let mut c: usize = 0;
        while c < data.len()
            invariant
                contacts@.len() == c,
                c <= data@.len(),
                lists_contacts(data@, found),
                forall|k: int|
                    0 <= k < data@.len() ==> valid_manifold(
                        (#[trigger] data@[k]).pair,
                        data@[k].contacts@.len(),
                        self.bodies@.len(),
                    ),
                forall|k: int|
                    0 <= k < c ==> valid_manifold(
                        (#[trigger] contacts@[k]).pair,
                        contacts@[k].contacts@.len(),
                        self.bodies@.len(),
                    ),
                forall|k: int| 0 <= k < c ==> (#[trigger] contacts@[k])@ == initialized(found[k], self.bodies@, delta),
            decreases data@.len() - c,
        {
            let d = &data[c];
            assert(valid_manifold(d.pair, d.contacts@.len(), self.bodies@.len()));
            assert(d.reports(found[c as int].first, found[c as int].second, found[c as int].contact));
            let m = d.initialize(delta, &self.bodies[d.pair.0], &self.bodies[d.pair.1]);
            assert(m@ == initialized(found[c as int], self.bodies@, delta));
            contacts.push(m);
            c += 1;
        }
        assert(views(contacts@) =~= found.map_values(|c: PairContact| initialized(c, self.bodies@, delta)));
        contacts
    }

    /// One solver pass over all manifolds, in order.
    fn impulse_round(&mut self, contacts: &Vec<Manifold>)
        requires
            forall|k: int|
                0 <= k < contacts@.len() ==> valid_manifold(
                    (#[trigger] contacts@[k]).pair,
                    contacts@[k].contacts@.len(),
                    old(self).bodies@.len(),
                ),
        ensures
            final(self).iterations == old(self).iterations,
            final(self).bodies@.len() == old(self).bodies@.len(),
            forall|k: int| 0 <= k < old(self).bodies@.len() ==> kept(old(self).bodies@[k], #[trigger] final(self).bodies@[k]),
            final(self).bodies@ == impulse_pass(old(self).bodies@, views(contacts@), contacts@.len()),
    {
        let n = self.bodies.len();
        let mut k: usize = 0;
        while k < contacts.len()
            invariant
                n == self.bodies@.len() == old(self).bodies@.len(),
                self.iterations == old(self).iterations,
                k <= contacts@.len(),
                forall|t: int| 0 <= t < n ==> kept(old(self).bodies@[t], #[trigger] self.bodies@[t]),
                forall|t: int|
                    0 <= t < contacts@.len() ==> valid_manifold(
                        (#[trigger] contacts@[t]).pair,
                        contacts@[t].contacts@.len(),
                        n as nat,
                    ),
                self.bodies@ == impulse_pass(old(self).bodies@, views(contacts@), k as nat),
            decreases contacts@.len() - k,
        {
            let m = &contacts[k];
            assert(valid_manifold(m.pair, m.contacts@.len(), n as nat));
            assert(views(contacts@)[k as int] == m@);
            let ghost before = self.bodies@;
            proof {
                lemma_manifold_impulse_kept(before[m.pair.0 as int], before[m.pair.1 as int], m@);
            }
            self.apply_impulse(m);
            proof {
                assert forall|t: int| 0 <= t < n implies kept(old(self).bodies@[t], #[trigger] self.bodies@[t]) by {
                    assert(kept(old(self).bodies@[t], before[t]));
                }
            }
            k += 1;
        }
    }

    /// The iterative impulse solver: `iterations` passes over all manifolds.
    fn solve(&mut self, contacts: &Vec<Manifold>)
        requires
            forall|k: int|
                0 <= k < contacts@.len() ==> valid_manifold(
                    (#[trigger] contacts@[k]).pair,
                    contacts@[k].contacts@.len(),
                    old(self).bodies@.len(),
                ),
        ensures
            final(self).iterations == old(self).iterations,
            final(self).bodies@.len() == old(self).bodies@.len(),
            forall|k: int| 0 <= k < old(self).bodies@.len() ==> kept(old(self).bodies@[k], #[trigger] final(self).bodies@[k]),
            contacts@.len() == 0 ==> final(self).bodies@ == old(self).bodies@,
            final(self).bodies@ == impulse_passes(old(self).bodies@, views(contacts@), old(self).iterations as nat),
    {
        let n = self.bodies.len();
        let iterations = self.iterations;
        let mut pass: u32 = 0;
        while pass < iterations
            invariant
                n == self.bodies@.len() == old(self).bodies@.len(),
                self.iterations == iterations == old(self).iterations,
                pass <= iterations,
                forall|k: int| 0 <= k < n ==> kept(old(self).bodies@[k], #[trigger] self.bodies@[k]),
                forall|k: int|
                    0 <= k < contacts@.len() ==> valid_manifold((#[trigger] contacts@[k]).pair, contacts@[k].contacts@.len(), n as nat),
                contacts@.len() == 0 ==> self.bodies@ == old(self).bodies@,
                self.bodies@ == impulse_passes(old(self).bodies@, views(contacts@), pass as nat),
            decreases iterations - pass,
        {
            let ghost before = self.bodies@;
            self.impulse_round(contacts);
            proof {
                assert forall|t: int| 0 <= t < n implies kept(old(self).bodies@[t], #[trigger] self.bodies@[t]) by {
                    assert(kept(old(self).bodies@[t], before[t]));
                }
                if contacts@.len() == 0 {
                    assert(views(contacts@).len() == 0);
                }
            }
            pass += 1;
        }
    }

    /// Positional correction over all manifolds.
    fn correct_all(&mut self, contacts: &Vec<Manifold>)
        requires
            forall|k: int|
                0 <= k < contacts@.len() ==> valid_manifold(
                    (#[trigger] contacts@[k]).pair,
                    contacts@[k].contacts@.len(),
                    old(self).bodies@.len(),
                ),
        ensures
            final(self).iterations == old(self).iterations,
            final(self).bodies@.len() == old(self).bodies@.len(),
            forall|k: int| 0 <= k < old(self).bodies@.len() ==> kept(old(self).bodies@[k], #[trigger] final(self).bodies@[k]),
            contacts@.len() == 0 ==> final(self).bodies@ == old(self).bodies@,
            final(self).bodies@ == correction_pass(old(self).bodies@, views(contacts@), contacts@.len()),
    {
        let n = self.bodies.len();
        let mut k: usize = 0;
        while k < contacts.len()
            invariant
                n == self.bodies@.len() == old(self).bodies@.len(),
                self.iterations == old(self).iterations,
                k <= contacts@.len(),
                forall|t: int| 0 <= t < n ==> kept(old(self).bodies@[t], #[trigger] self.bodies@[t]),
                forall|t: int|
                    0 <= t < contacts@.len() ==> valid_manifold(
                        (#[trigger] contacts@[t]).pair,
                        contacts@[t].contacts@.len(),
                        n as nat,
                    ),
                contacts@.len() == 0 ==> self.bodies@ == old(self).bodies@,
                self.bodies@ == correction_pass(old(self).bodies@, views(contacts@), k as nat),
            decreases contacts@.len() - k,
        {
            let m = &contacts[k];
            assert(valid_manifold(m.pair, m.contacts@.len(), n as nat));
            assert(views(contacts@)[k as int] == m@);
            let ghost before = self.bodies@;
            proof {
                lemma_corrected_kept(before[m.pair.0 as int], before[m.pair.1 as int], m@);
            }
            self.positional_correct(m);
            proof {
                assert forall|t: int| 0 <= t < n implies kept(old(self).bodies@[t], #[trigger] self.bodies@[t]) by {
                    assert(kept(old(self).bodies@[t], before[t]));
                }
            }
            k += 1;
        }
    }

    /// Advances the world by `delta`: half-step force integration, contact
    /// generation, manifold set-up, the iterative impulse solver, velocity
    /// integration, positional correction, and clearing of the forces.
    pub fn step(&mut self, delta: Real)
        requires
            bodies_wf(old(self).bodies@),
        ensures
            final(self).bodies@.len() == old(self).bodies@.len(),
            final(self).iterations == old(self).iterations,
            bodies_wf(final(self).bodies@),
            forall|i: int|
                0 <= i < old(self).bodies@.len() ==> kept(
                    old(self).bodies@[i],
                    #[trigger] final(self).bodies@[i],
                ),
            forall|i: int|
                0 <= i < final(self).bodies@.len() ==> (#[trigger] final(self).bodies@[i]).force.is_zero()
                    && final(self).bodies@[i].torque.raw == 0,
            old(self).bodies@.len() == 1 ==> final(self).bodies@[0] == free_tick(old(self).bodies@[0], delta),
            final(self).bodies@ == step_spec(old(self).bodies@, old(self).iterations as nat, delta),
    {
        let ghost start = self.bodies@;
        let contact_data = self.generate_contact_list();
        proof {
            if start.len() == 1 {
                assert(contacts_before(start, 0) == Seq::<PairContact>::empty());
                assert(row_contacts(start, 0, 1) == Seq::<PairContact>::empty());
                assert(contact_list(start) =~= Seq::<PairContact>::empty());
            }
        }
        self.integrate_all_forces(delta);
        let ghost forced = self.bodies@;
        let contacts = self.initialize_all(&contact_data, delta, Ghost(contact_list(start)));
        self.solve(&contacts);
        let ghost solved = self.bodies@;
        self.integrate_all_velocities(delta);
        let ghost moved = self.bodies@;
        self.correct_all(&contacts);
        let ghost corrected_bodies = self.bodies@;
        self.clear_forces();
        proof {
            let n = start.len();
            assert forall|i: int| 0 <= i < n implies kept(start[i], #[trigger] self.bodies@[i]) by {
                assert(kept(start[i], forced[i]));
                assert(kept(forced[i], solved[i]));
                assert(kept(solved[i], moved[i]));
                assert(kept(moved[i], corrected_bodies[i]));
            }
            assert forall|i: int, j: int|
                0 <= i < j < n implies supported_pair(
                #[trigger] self.bodies@[i],
                #[trigger] self.bodies@[j],
            ) by {
                assert(kept(start[i], self.bodies@[i]));
                assert(kept(start[j], self.bodies@[j]));
                assert(supported_pair(start[i], start[j]));
            }
            assert forall|i: int| 0 <= i < n implies (#[trigger] self.bodies@[i]).wf() by {
                assert(kept(start[i], self.bodies@[i]));
                assert(start[i].wf());
            }
            assert(forced == start.map_values(|b: Body| integrate_forces_spec(b, delta)));
        }
    }
}

/// Coulomb's clamp: wherever the raw tangent impulse is not strictly
/// between the dynamic bound `j * df` and the static bound `j * sf`, the
/// clamped tangent impulse is at most `j * df` in magnitude. (A raw
/// impulse strictly between the two bounds is kept as it is.)
pub proof fn lemma_friction_clamp(jt: Real, j: Real, sf: Real, df: Real)
    requires
        j.raw >= 0,
        df.raw >= 0,
        jt.abs_spec().raw <= j.mul_spec(df).raw || jt.abs_spec().raw >= j.mul_spec(sf).raw,
    ensures
        clamp_friction_spec(jt, j, sf, df).abs_spec().raw <= j.mul_spec(df).raw,
{
    lemma_mul_nonneg(j, df);
    if jt.abs_spec().raw >= j.mul_spec(sf).raw {
        lemma_mul_neg(j, df);
    }
}

/// Velocity gained from gravity in half a step of length `delta`.
proof fn lemma_gravity_gain(b: Body, delta: Real)
    requires
        !b.is_static(),
        b.force.is_zero(),
        delta.raw >= 2,
    ensures
        b.force.scale_spec(b.inv_mass).add_spec(gravity_spec()).scale_spec(delta.half_spec()).y.raw >= 1,
{
    let h = delta.half_spec();
    assert(h.raw >= 1);
    assert(0 * b.inv_mass.raw == 0);
    let g = b.force.scale_spec(b.inv_mass).add_spec(gravity_spec());
    assert(g.y.raw == GRAVITY_Y_RAW);
    assert(GRAVITY_Y_RAW * h.raw >= SCALE) by (nonlinear_arith)
        requires h.raw >= 1;
    let p = GRAVITY_Y_RAW * h.raw;
    assert(p / (SCALE as int) >= 1) by (nonlinear_arith)
        requires p >= SCALE;
}

/// A lone dynamic body with no force applied falls ever faster under
/// gravity: each tick (of at least two raw units) strictly increases its
/// velocity along gravity, until that velocity reaches the largest value.
pub proof fn lemma_free_fall(b: Body, delta: Real)
    requires
        !b.is_static(),
        b.force.is_zero(),
        delta.raw >= 2,
        b.velocity.y.raw < RAW_MAX,
    ensures
        free_tick(b, delta).velocity.y.raw > b.velocity.y.raw,
{
    lemma_gravity_gain(b, delta);
    let b1 = integrate_forces_spec(b, delta);
    assert(b1.velocity.y.raw > b.velocity.y.raw);
    let moved = Body { position: b1.position.add_spec(b1.velocity.scale_spec(delta)), ..b1 };
    let turned = with_orient(moved, b1.orient.add_spec(b1.angular_velocity.mul_spec(delta)));
    lemma_gravity_gain(turned, delta);
    assert(integrate_forces_spec(turned, delta).velocity.y.raw >= turned.velocity.y.raw);
}

/// Positional correction never overshoots. For non-negative inverse masses
/// with a positive sum, the two bodies' shares of the correction (the
/// distances they are moved apart along an axis-aligned unit normal) add up
/// to no more than the penetration beyond the slop, and to nothing at or
/// below the slop: repeated corrections of a resting pair bring its
/// penetration down toward the slop and never past it.
pub proof fn lemma_correction_bounded(penetration: Real, inv_a: Real, inv_b: Real)
    requires
        inv_a.raw >= 0,
        inv_b.raw >= 0,
        inv_a.raw + inv_b.raw > 0,
        fits(inv_a.raw + inv_b.raw),
    ensures
        correction_share(penetration, inv_a, inv_b) >= 0,
        penetration.raw <= SLOP_RAW ==> correction_share(penetration, inv_a, inv_b) == 0,
        penetration.raw > SLOP_RAW ==> SLOP_RAW <= penetration.raw - correction_share(penetration, inv_a, inv_b),
{
    let sum = inv_a.add_spec(inv_b);
    let x = penetration.sub_spec(Real { raw: SLOP_RAW }).max_spec(Real { raw: 0 });
    let q1 = x.div_spec(sum);
    let q = correction_magnitude(penetration, sum);
    assert(sum.raw == inv_a.raw + inv_b.raw);
    assert(x.raw >= 0);
    assert(x.raw * SCALE >= 0) by (nonlinear_arith)
        requires x.raw >= 0;
    let n1 = x.raw * SCALE;
    assert(0 <= n1 / (sum.raw as int) <= n1) by (nonlinear_arith)
        requires n1 >= 0, sum.raw >= 1;
    assert(sum.raw * (n1 / (sum.raw as int)) <= n1) by (nonlinear_arith)
        requires n1 >= 0, sum.raw >= 1;
    let d1 = n1 / (sum.raw as int);
    assert(div_trunc(n1, sum.raw as int) == d1);
    assert(0 <= q1.raw <= d1);
    assert(sum.raw * q1.raw <= x.raw * SCALE) by (nonlinear_arith)
        requires 0 <= q1.raw <= d1, sum.raw * d1 <= n1, n1 == x.raw * SCALE, sum.raw >= 1;
    lemma_mul_nonneg(q1, Real { raw: PERCENT_RAW });
    assert(q1.raw * PERCENT_RAW >= 0) by (nonlinear_arith)
        requires q1.raw >= 0;
    let n2 = q1.raw * PERCENT_RAW;
    assert(SCALE * (n2 / (SCALE as int)) <= n2 && n2 / (SCALE as int) <= q1.raw) by (nonlinear_arith)
        requires n2 >= 0, n2 == q1.raw * PERCENT_RAW, q1.raw >= 0;
    assert(q.raw >= 0 && SCALE * q.raw <= PERCENT_RAW * q1.raw);
    lemma_mul_nonneg(q, inv_a);
    lemma_mul_nonneg(q, inv_b);
    let ta = q.mul_spec(inv_a);
    let tb = q.mul_spec(inv_b);
    assert(q.raw * inv_a.raw >= 0 && q.raw * inv_b.raw >= 0) by (nonlinear_arith)
        requires q.raw >= 0, inv_a.raw >= 0, inv_b.raw >= 0;
    let pa = q.raw * inv_a.raw;
    let pb = q.raw * inv_b.raw;
    assert(SCALE * (pa / (SCALE as int)) <= pa) by (nonlinear_arith)
        requires pa >= 0;
    assert(SCALE * (pb / (SCALE as int)) <= pb) by (nonlinear_arith)
        requires pb >= 0;
    assert(SCALE * ta.raw <= pa && SCALE * tb.raw <= pb);
    assert(SCALE * (ta.raw + tb.raw) <= q.raw * sum.raw) by (nonlinear_arith)
        requires
            SCALE * ta.raw <= pa,
            SCALE * tb.raw <= pb,
            pa == q.raw * inv_a.raw,
            pb == q.raw * inv_b.raw,
            sum.raw == inv_a.raw + inv_b.raw;
    assert(SCALE * SCALE * (ta.raw + tb.raw) <= PERCENT_RAW * x.raw * SCALE) by (nonlinear_arith)
        requires
            SCALE * (ta.raw + tb.raw) <= q.raw * sum.raw,
            SCALE * q.raw <= PERCENT_RAW * q1.raw,
            sum.raw * q1.raw <= x.raw * SCALE,
            sum.raw >= 1,
            q.raw >= 0,
            q1.raw >= 0;
    assert(ta.raw + tb.raw <= x.raw) by (nonlinear_arith)
        requires
            SCALE * SCALE * (ta.raw + tb.raw) <= PERCENT_RAW * x.raw * SCALE,
            x.raw >= 0;
}

/// How far positional correction moves a pair apart along an axis-aligned
/// unit normal: the sum of the two bodies' shares.
pub open spec fn correction_share(penetration: Real, inv_a: Real, inv_b: Real) -> int {
    let q = correction_magnitude(penetration, inv_a.add_spec(inv_b));
    q.mul_spec(inv_a).raw + q.mul_spec(inv_b).raw
}

} // verus!
