//! Shapes, mass properties, and the rigid body with its integration steps.
use vstd::prelude::*;
use crate::fixed::{Real, SCALE, PI_RAW, sin, cos, sin_spec, cos_spec, fits, lemma_mul_neg, lemma_mul_grows, lemma_mul_pos};
use crate::types::{Vec2, Mat2};
use crate::operations::{cross_vectors, cross_vectors_spec};
use crate::scene::{gravity, gravity_spec};

verus! {

#[derive(Clone, Copy, PartialEq, Eq, Structural, Debug)]
pub struct PolygonShapeVertex {
    pub position: Vec2,
    pub normal: Vec2,
}

pub enum Shape {
    Circle { radius: Real },
    Polygon { orientation: Mat2, vertices: Vec<PolygonShapeVertex> },
}

/// Index of the vertex after `i` on a closed ring of `n` vertices.
pub open spec fn next_index_spec(i: int, n: int) -> int {
    if i + 1 < n {
        i + 1
    } else {
        0
    }
}

pub fn next_index(i: usize, n: usize) -> (r: usize)
    requires
        i < n,
    ensures
        r == next_index_spec(i as int, n as int),
        r < n,
{
    if i + 1 < n {
        i + 1
    } else {
        0
    }
}

/// Rotation by `radians` counter-clockwise (in a y-up frame).
pub open spec fn rotation_spec(radians: Real) -> Mat2 {
    Mat2 {
        m00: cos_spec(radians),
        m01: sin_spec(radians).neg_spec(),
        m10: sin_spec(radians),
        m11: cos_spec(radians),
    }
}

pub fn rotation(radians: Real) -> (r: Mat2)
    ensures
        r == rotation_spec(radians),
{
    let c = cos(radians);
    let s = sin(radians);
    Mat2 { m00: c, m01: s.neg(), m10: s, m11: c }
}

pub open spec fn rect_vertex(x: Real, y: Real, nx: int, ny: int) -> PolygonShapeVertex {
    PolygonShapeVertex {
        position: Vec2 { x, y },
        normal: Vec2 { x: Real { raw: (nx * SCALE) as i64 }, y: Real { raw: (ny * SCALE) as i64 } },
    }
}

impl Shape {
    pub open spec fn wf(&self) -> bool {
        match self {
            Shape::Circle { .. } => true,
            Shape::Polygon { vertices, .. } => vertices@.len() >= 3,
        }
    }

    pub open spec fn is_circle(&self) -> bool {
        self is Circle
    }

    /// Axis-aligned box with half extents `h`, wound counter-clockwise
    /// from the corner at `(-h.x, -h.y)`.
    pub open spec fn rect_vertices(h: Vec2) -> Seq<PolygonShapeVertex> {
        seq![
            rect_vertex(h.x.neg_spec(), h.y.neg_spec(), 0, -1),
            rect_vertex(h.x, h.y.neg_spec(), 1, 0),
            rect_vertex(h.x, h.y, 0, 1),
            rect_vertex(h.x.neg_spec(), h.y, -1, 0),
        ]
    }

    pub fn rect(h: Vec2) -> (r: Shape)
        ensures
            r.wf(),
            r matches Shape::Polygon { orientation, vertices }
                && orientation.is_identity() && vertices@ == Shape::rect_vertices(h),
    {
        let one = Real::from_int(1);
        let zero = Real::zero();
        let vertices = vec![
            PolygonShapeVertex { position: Vec2::new(h.x.neg(), h.y.neg()), normal: Vec2::new(zero, one.neg()) },
            PolygonShapeVertex { position: Vec2::new(h.x, h.y.neg()), normal: Vec2::new(one, zero) },
            PolygonShapeVertex { position: Vec2::new(h.x, h.y), normal: Vec2::new(zero, one) },
            PolygonShapeVertex { position: Vec2::new(h.x.neg(), h.y), normal: Vec2::new(one.neg(), zero) },
        ];
        proof {
            assert(vertices@ =~= Shape::rect_vertices(h));
        }
        Shape::Polygon { orientation: Mat2::identity(), vertices }
    }
}

#[derive(Clone, Copy, PartialEq, Eq, Structural, Debug)]
pub struct MassData {
    pub moment_inertia: Real,
    pub inv_inertia: Real,
    pub mass: Real,
    pub inv_mass: Real,
}

/// One third, to nine decimal places.
pub const THIRD_RAW: i64 = 333_333_333;

/// `1 / x`, or zero where `x` is zero.
pub open spec fn inverse_spec(x: Real) -> Real {
    if x.raw == 0 {
        Real { raw: 0 }
    } else {
        Real { raw: SCALE }.div_spec(x)
    }
}

fn inverse(x: Real) -> (r: Real)
    ensures
        r == inverse_spec(x),
{
    if x.raw == 0 {
        Real::zero()
    } else {
        Real::from_int(1).div(x)
    }
}

/// Running sums of a polygon's area, area-weighted centroid and second
/// moment over its triangles fanned from the origin.
#[derive(Clone, Copy, PartialEq, Eq, Structural, Debug)]
pub struct PolygonSums {
    pub area: Real,
    pub centroid: Vec2,
    pub inertia: Real,
}

/// The sums after adding the triangle on the edge `p1`-`p2`.
pub open spec fn add_triangle(s: PolygonSums, p1: Vec2, p2: Vec2) -> PolygonSums {
    let third = Real { raw: THIRD_RAW };
    let d = cross_vectors_spec(p1, p2);
    let triangle_area = d.half_spec();
    let intx2 = p1.x.mul_spec(p1.x).add_spec(p2.x.mul_spec(p1.x)).add_spec(p2.x.mul_spec(p2.x));
    let inty2 = p1.y.mul_spec(p1.y).add_spec(p2.y.mul_spec(p1.y)).add_spec(p2.y.mul_spec(p2.y));
    let k = Real { raw: 250_000_000 }.mul_spec(third).mul_spec(d);
    PolygonSums {
        area: s.area.add_spec(triangle_area),
        centroid: s.centroid.add_spec(p1.add_spec(p2).scale_spec(triangle_area.mul_spec(third))),
        inertia: s.inertia.add_spec(k.mul_spec(intx2.add_spec(inty2))),
    }
}

/// The sums over the first `k` edges of the ring `vs`.
pub open spec fn polygon_sums(vs: Seq<PolygonShapeVertex>, k: nat) -> PolygonSums
    decreases k,
{
    if k == 0 {
        PolygonSums {
            area: Real { raw: 0 },
            centroid: Vec2 { x: Real { raw: 0 }, y: Real { raw: 0 } },
            inertia: Real { raw: 0 },
        }
    } else {
        add_triangle(
            polygon_sums(vs, (k - 1) as nat),
            vs[k - 1].position,
            vs[next_index_spec(k - 1, vs.len() as int)].position,
        )
    }
}

/// Centroid of the ring `vs`; the origin where its area is zero.
pub open spec fn polygon_centroid(vs: Seq<PolygonShapeVertex>) -> Vec2 {
    let s = polygon_sums(vs, vs.len());
    if s.area.raw == 0 {
        Vec2 { x: Real { raw: 0 }, y: Real { raw: 0 } }
    } else {
        s.centroid.div_spec(s.area)
    }
}

/// The ring `vs` translated so that its centroid is the origin.
pub open spec fn recentred(vs: Seq<PolygonShapeVertex>) -> Seq<PolygonShapeVertex> {
    vs.map_values(
        |v: PolygonShapeVertex|
            PolygonShapeVertex { position: v.position.sub_spec(polygon_centroid(vs)), normal: v.normal },
    )
}

/// Mass properties of a shape of the given density.
pub open spec fn mass_data_spec(shape: Shape, density: Real) -> MassData {
    let (mass, inertia) = match shape {
        Shape::Circle { radius } => {
            let m = Real { raw: PI_RAW }.mul_spec(radius).mul_spec(radius).mul_spec(density);
            (m, m.mul_spec(radius).mul_spec(radius))
        },
        Shape::Polygon { vertices, .. } => {
            let s = polygon_sums(vertices@, vertices@.len());
            (density.mul_spec(s.area), s.inertia.mul_spec(density))
        },
    };
    MassData {
        moment_inertia: inertia,
        inv_inertia: inverse_spec(inertia),
        mass,
        inv_mass: inverse_spec(mass),
    }
}

/// `s` is `shape` as a body holds it: a polygon is recentred on its centroid.
pub open spec fn recentred_shape(s: Shape, shape: Shape) -> bool {
    match (s, shape) {
        (Shape::Circle { radius: r1 }, Shape::Circle { radius: r2 }) => r1 == r2,
        (
            Shape::Polygon { orientation: o1, vertices: v1 },
            Shape::Polygon { orientation: o2, vertices: v2 },
        ) => o1 == o2 && v1@ == recentred(v2@),
        _ => false,
    }
}

fn add_triangle_exec(s: PolygonSums, p1: Vec2, p2: Vec2) -> (r: PolygonSums)
    ensures
        r == add_triangle(s, p1, p2),
{
    let third = Real { raw: THIRD_RAW };
    let d = cross_vectors(p1, p2);
    let triangle_area = d.half();
    let intx2 = p1.x.mul(p1.x).add(p2.x.mul(p1.x)).add(p2.x.mul(p2.x));
    let inty2 = p1.y.mul(p1.y).add(p2.y.mul(p1.y)).add(p2.y.mul(p2.y));
    let k = Real { raw: 250_000_000 }.mul(third).mul(d);
    PolygonSums {
        area: s.area.add(triangle_area),
        centroid: s.centroid.add(p1.add(p2).scale(triangle_area.mul(third))),
        inertia: s.inertia.add(k.mul(intx2.add(inty2))),
    }
}

/// Computes the mass properties of `shape` at `density`, and returns the
/// shape recentred on its centroid.
fn compute_mass(shape: Shape, density: Real) -> (r: (Shape, MassData))
    requires
        shape.wf(),
    ensures
        recentred_shape(r.0, shape),
        r.0.wf(),
        r.1 == mass_data_spec(shape, density),
{
    match shape {
        Shape::Circle { radius } => {
            let m = Real { raw: PI_RAW }.mul(radius).mul(radius).mul(density);
            let i = m.mul(radius).mul(radius);
            let data = MassData { moment_inertia: i, inv_inertia: inverse(i), mass: m, inv_mass: inverse(m) };
            (Shape::Circle { radius }, data)
        },
        Shape::Polygon { orientation, vertices } => {
            let n = vertices.len();
            let mut sums = PolygonSums { area: Real::zero(), centroid: Vec2::zero(), inertia: Real::zero() };
            let mut k: usize = 0;
            while k < n
                invariant
                    n == vertices@.len(),
                    k <= n,
                    sums == polygon_sums(vertices@, k as nat),
                decreases n - k,
            {
                let p1 = vertices[k].position;
                let p2 = vertices[next_index(k, n)].position;
                sums = add_triangle_exec(sums, p1, p2);
                k += 1;
            }
            let c = if sums.area.raw == 0 {
                Vec2::zero()
            } else {
                sums.centroid.div(sums.area)
            };
            assert(c == polygon_centroid(vertices@));
            let mut moved: Vec<PolygonShapeVertex> = Vec::new();
            let mut j: usize = 0;
            while j < n
                invariant
                    n == vertices@.len(),
                    j <= n,
                    moved@.len() == j,
                    forall|t: int|
                        0 <= t < j ==> #[trigger] moved@[t] == (PolygonShapeVertex {
                            position: vertices@[t].position.sub_spec(c),
                            normal: vertices@[t].normal,
                        }),
                decreases n - j,
            {
                let v = vertices[j];
                moved.push(PolygonShapeVertex { position: v.position.sub(c), normal: v.normal });
                j += 1;
            }
            assert(moved@ =~= recentred(vertices@));
            let m = density.mul(sums.area);
            let i = sums.inertia.mul(density);
            let data = MassData { moment_inertia: i, inv_inertia: inverse(i), mass: m, inv_mass: inverse(m) };
            (Shape::Polygon { orientation, vertices: moved }, data)
        },
    }
}

pub struct Body {
    pub shape: Shape,
    pub position: Vec2,
    /// Orientation in radians.
    pub orient: Real,
    pub velocity: Vec2,
    pub angular_velocity: Real,
    pub torque: Real,
    pub force: Vec2,
    pub static_friction: Real,
    pub dynamic_friction: Real,
    pub restitution: Real,
    pub moment_inertia: Real,
    pub inv_inertia: Real,
    pub mass: Real,
    pub inv_mass: Real,
}

/// Default coefficient of static friction (0.5), in raw units.
pub const STATIC_FRICTION_RAW: i64 = 500_000_000;

/// Default coefficient of dynamic friction (0.3), in raw units.
pub const DYNAMIC_FRICTION_RAW: i64 = 300_000_000;

/// Default restitution (0.2), in raw units.
pub const RESTITUTION_RAW: i64 = 200_000_000;

/// The body with its orientation set to `radians`; a polygon's rotation
/// matrix follows the angle.
pub open spec fn with_orient(b: Body, radians: Real) -> Body {
    Body {
        orient: radians,
        shape: match b.shape {
            Shape::Circle { radius } => Shape::Circle { radius },
            Shape::Polygon { vertices, .. } => Shape::Polygon {
                orientation: rotation_spec(radians),
                vertices,
            },
        },
        ..b
    }
}

/// The body after the impulse `impulse` at the arm `r` from its centre.
pub open spec fn impulse_applied(b: Body, impulse: Vec2, r: Vec2) -> Body {
    Body {
        velocity: b.velocity.add_spec(impulse.scale_spec(b.inv_mass)),
        angular_velocity: b.angular_velocity.add_spec(b.inv_inertia.mul_spec(cross_vectors_spec(r, impulse))),
        ..b
    }
}

/// Half a step of force integration.
pub open spec fn integrate_forces_spec(b: Body, delta: Real) -> Body {
    if b.inv_mass.raw == 0 {
        b
    } else {
        let h = delta.half_spec();
        Body {
            velocity: b.velocity.add_spec(
                b.force.scale_spec(b.inv_mass).add_spec(gravity_spec()).scale_spec(h),
            ),
            angular_velocity: b.angular_velocity.add_spec(
                b.torque.mul_spec(b.inv_inertia).mul_spec(h),
            ),
            ..b
        }
    }
}

/// A full step of velocity integration: position and orientation advance
/// by the velocities, then the second half of force integration.
pub open spec fn integrate_velocity_spec(b: Body, delta: Real) -> Body {
    if b.inv_mass.raw == 0 {
        b
    } else {
        let moved = Body { position: b.position.add_spec(b.velocity.scale_spec(delta)), ..b };
        integrate_forces_spec(
            with_orient(moved, b.orient.add_spec(b.angular_velocity.mul_spec(delta))),
            delta,
        )
    }
}

impl Body {
    pub open spec fn wf(&self) -> bool {
        self.shape.wf()
    }

    /// Whether the body is immovable: it has no inverse mass.
    pub open spec fn is_static(&self) -> bool {
        self.inv_mass.raw == 0
    }

    /// A body at rest at `position`, with default materials and the mass
    /// properties of `shape` at `density`.
    pub fn with_density(shape: Shape, position: Vec2, density: Real) -> (r: Body)
        requires
            shape.wf(),
        ensures
            r.wf(),
            recentred_shape(r.shape, shape),
            r.position == position,
            r.orient.raw == 0,
            r.velocity.is_zero(),
            r.angular_velocity.raw == 0,
            r.force.is_zero(),
            r.torque.raw == 0,
            r.static_friction.raw == STATIC_FRICTION_RAW,
            r.dynamic_friction.raw == DYNAMIC_FRICTION_RAW,
            r.restitution.raw == RESTITUTION_RAW,
            mass_data_spec(shape, density) == (MassData {
                moment_inertia: r.moment_inertia,
                inv_inertia: r.inv_inertia,
                mass: r.mass,
                inv_mass: r.inv_mass,
            }),
    {
        let (shape, mass_data) = compute_mass(shape, density);
        Body {
            shape,
            position,
            orient: Real::zero(),
            velocity: Vec2::zero(),
            angular_velocity: Real::zero(),
            torque: Real::zero(),
            force: Vec2::zero(),
            static_friction: Real { raw: STATIC_FRICTION_RAW },
            dynamic_friction: Real { raw: DYNAMIC_FRICTION_RAW },
            restitution: Real { raw: RESTITUTION_RAW },
            moment_inertia: mass_data.moment_inertia,
            inv_inertia: mass_data.inv_inertia,
            mass: mass_data.mass,
            inv_mass: mass_data.inv_mass,
        }
    }

    /// A body of density one.
    pub fn new(shape: Shape, position: Vec2) -> (r: Body)
        requires
            shape.wf(),
        ensures
            r.wf(),
            recentred_shape(r.shape, shape),
            r.position == position,
            r.orient.raw == 0,
            r.velocity.is_zero(),
            r.angular_velocity.raw == 0,
            r.force.is_zero(),
            r.torque.raw == 0,
            r.static_friction.raw == STATIC_FRICTION_RAW,
            r.dynamic_friction.raw == DYNAMIC_FRICTION_RAW,
            r.restitution.raw == RESTITUTION_RAW,
            mass_data_spec(shape, Real { raw: SCALE }) == (MassData {
                moment_inertia: r.moment_inertia,
                inv_inertia: r.inv_inertia,
                mass: r.mass,
                inv_mass: r.inv_mass,
            }),
    {
        Self::with_density(shape, position, Real::from_int(1))
    }

    /// Adds `force` to the force accumulated for this tick.
    pub fn apply_force(&mut self, force: Vec2)
        ensures
            *final(self) == (Body { force: old(self).force.add_spec(force), ..*old(self) }),
    {
        self.force = self.force.add(force);
    }

    /// Applies `impulse` at the arm `contact_vector` from the centre of mass.
    pub fn apply_impulse(&mut self, impulse: Vec2, contact_vector: Vec2)
        ensures
            *final(self) == impulse_applied(*old(self), impulse, contact_vector),
    {
        self.velocity = self.velocity.add(impulse.scale(self.inv_mass));
        self.angular_velocity = self.angular_velocity.add(
            self.inv_inertia.mul(cross_vectors(contact_vector, impulse)),
        );
    }

    /// Freezes the body: zero mass and inertia, and so zero inverses.
    pub fn set_static(&mut self)
        ensures
            *final(self) == (Body {
                moment_inertia: Real { raw: 0 },
                inv_inertia: Real { raw: 0 },
                mass: Real { raw: 0 },
                inv_mass: Real { raw: 0 },
                ..*old(self)
            }),
    {
        self.moment_inertia = Real::zero();
        self.inv_inertia = Real::zero();
        self.mass = Real::zero();
        self.inv_mass = Real::zero();
    }

    /// Sets the orientation, and rebuilds a polygon's rotation matrix.
    pub fn set_orient(&mut self, radians: Real)
        ensures
            *final(self) == with_orient(*old(self), radians),
    {
        self.orient = radians;
        match &mut self.shape {
            Shape::Circle { .. } => {},
            Shape::Polygon { orientation, .. } => {
                *orientation = rotation(radians);
            },
        }
    }

    /// Half a step of force integration; a static body is left alone.
    pub fn integrate_forces(&mut self, delta: Real)
        ensures
            *final(self) == integrate_forces_spec(*old(self), delta),
    {
        if self.inv_mass.raw == 0 {
            return ;
        }
        let h = delta.half();
        self.velocity = self.velocity.add(self.force.scale(self.inv_mass).add(gravity()).scale(h));
        self.angular_velocity = self.angular_velocity.add(self.torque.mul(self.inv_inertia).mul(h));
    }

    /// Advances position and orientation by the velocities over `delta`,
    /// then integrates the second half of the forces; a static body is left
    /// alone.
    pub fn integrate_velocity(&mut self, delta: Real)
        ensures
            *final(self) == integrate_velocity_spec(*old(self), delta),
    {
        if self.inv_mass.raw == 0 {
            return ;
        }
        self.position = self.position.add(self.velocity.scale(delta));
        let orient = self.orient.add(self.angular_velocity.mul(delta));
        self.set_orient(orient);
        self.integrate_forces(delta);
    }
}

/// Equal and opposite impulses on two bodies of equal mass leave their
/// combined linear momentum unchanged: the sum of the velocities is kept,
/// wherever no velocity component saturates.
pub proof fn lemma_momentum_kept(a: Body, b: Body, impulse: Vec2, ra: Vec2, rb: Vec2)
    requires
        a.inv_mass == b.inv_mass,
        impulse.x.raw != i64::MIN,
        impulse.y.raw != i64::MIN,
        fits(a.velocity.x.raw + impulse.x.neg_spec().mul_spec(a.inv_mass).raw),
        fits(a.velocity.y.raw + impulse.y.neg_spec().mul_spec(a.inv_mass).raw),
        fits(b.velocity.x.raw + impulse.x.mul_spec(b.inv_mass).raw),
        fits(b.velocity.y.raw + impulse.y.mul_spec(b.inv_mass).raw),
    ensures
        impulse_applied(a, impulse.neg_spec(), ra).velocity.x.raw + impulse_applied(b, impulse, rb).velocity.x.raw
            == a.velocity.x.raw + b.velocity.x.raw,
        impulse_applied(a, impulse.neg_spec(), ra).velocity.y.raw + impulse_applied(b, impulse, rb).velocity.y.raw
            == a.velocity.y.raw + b.velocity.y.raw,
{
    lemma_mul_neg(impulse.x, a.inv_mass);
    lemma_mul_neg(impulse.y, a.inv_mass);
}

/// Mass properties of a circle.
pub open spec fn circle_mass_data(radius: Real, density: Real) -> MassData {
    mass_data_spec(Shape::Circle { radius }, density)
}

/// The quotient `1 / x`.
pub open spec fn reciprocal(x: Real) -> Real {
    Real { raw: SCALE }.div_spec(x)
}

/// A circle of radius at least one unit and of positive density has
/// positive mass and moment of inertia, and their inverses are their
/// reciprocals.
pub proof fn lemma_circle_mass_positive(radius: Real, density: Real)
    requires
        radius.raw >= SCALE,
        density.raw > 0,
    ensures
        circle_mass_data(radius, density).mass.raw > 0,
        circle_mass_data(radius, density).moment_inertia.raw > 0,
        circle_mass_data(radius, density).inv_mass == reciprocal(circle_mass_data(radius, density).mass),
        circle_mass_data(radius, density).inv_inertia == reciprocal(
            circle_mass_data(radius, density).moment_inertia,
        ),
{
    let pi = Real { raw: PI_RAW };
    lemma_mul_grows(pi, radius);
    lemma_mul_grows(pi.mul_spec(radius), radius);
    let area = pi.mul_spec(radius).mul_spec(radius);
    lemma_mul_pos(area, density);
    let m = area.mul_spec(density);
    lemma_mul_grows(m, radius);
    lemma_mul_grows(m.mul_spec(radius), radius);
}

} // verus!
