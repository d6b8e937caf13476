use impulse::body::{next_index, rotation, Body, Shape, DYNAMIC_FRICTION_RAW, RESTITUTION_RAW, STATIC_FRICTION_RAW};
use impulse::fixed::{Real, PI_RAW, SCALE};
use impulse::types::Vec2;

fn v(x: i32, y: i32) -> Vec2 {
    Vec2::new(Real::from_int(x), Real::from_int(y))
}

#[test]
fn rect_has_four_outward_faces() {
    match Shape::rect(v(3, 2)) {
        Shape::Polygon { orientation, vertices } => {
            assert_eq!(orientation.m00.raw, SCALE);
            assert_eq!(orientation.m01.raw, 0);
            assert_eq!(vertices.len(), 4);
            assert_eq!(vertices[0].position, v(-3, -2));
            assert_eq!(vertices[0].normal, v(0, -1));
            assert_eq!(vertices[1].position, v(3, -2));
            assert_eq!(vertices[1].normal, v(1, 0));
            assert_eq!(vertices[2].position, v(3, 2));
            assert_eq!(vertices[2].normal, v(0, 1));
            assert_eq!(vertices[3].position, v(-3, 2));
            assert_eq!(vertices[3].normal, v(-1, 0));
        }
        Shape::Circle { .. } => panic!("a rect is a polygon"),
    }
}

#[test]
fn circle_mass_is_pi_r_squared_times_density() {
    let b = Body::with_density(Shape::Circle { radius: Real::from_int(2) }, v(0, 0), Real::from_milli(500));
    // pi * 2 * 2 * 0.5
    assert_eq!(b.mass.raw, 2 * PI_RAW);
    // mass * r * r
    assert_eq!(b.moment_inertia.raw, 8 * PI_RAW);
    assert_eq!(b.inv_mass.raw, SCALE * SCALE / (2 * PI_RAW));
    assert_eq!(b.inv_inertia.raw, SCALE * SCALE / (8 * PI_RAW));
}

#[test]
fn mass_positivity_of_circles() {
    for radius in [1, 5, 15, 70] {
        for density in [1, 500, 1000, 3000] {
            let b = Body::with_density(
                Shape::Circle { radius: Real::from_int(radius) },
                v(0, 0),
                Real::from_milli(density),
            );
            assert!(b.mass.raw > 0);
            assert!(b.moment_inertia.raw > 0);
            assert_eq!(b.inv_mass, Real::from_int(1).div(b.mass));
            assert_eq!(b.inv_inertia, Real::from_int(1).div(b.moment_inertia));
        }
    }
}

#[test]
fn new_body_defaults() {
    let b = Body::new(Shape::Circle { radius: Real::from_int(1) }, v(4, 5));
    assert_eq!(b.position, v(4, 5));
    assert_eq!(b.velocity, Vec2::zero());
    assert_eq!(b.force, Vec2::zero());
    assert_eq!(b.angular_velocity.raw, 0);
    assert_eq!(b.orient.raw, 0);
    assert_eq!(b.static_friction.raw, STATIC_FRICTION_RAW);
    assert_eq!(b.dynamic_friction.raw, DYNAMIC_FRICTION_RAW);
    assert_eq!(b.restitution.raw, RESTITUTION_RAW);
    assert_eq!(b.mass.raw, PI_RAW);
}

#[test]
fn rect_mass_and_inertia() {
    let b = Body::new(Shape::rect(v(1, 1)), v(0, 0));
    // a 2 x 2 square of density one
    assert_eq!(b.mass.raw, 4 * SCALE);
    // m (w^2 + h^2) / 12 = 8 / 3
    assert!((b.moment_inertia.raw - 2_666_666_666).abs() <= 100);
    assert_eq!(b.inv_mass.raw, SCALE / 4);
    // already centred: the vertices are unchanged
    match &b.shape {
        Shape::Polygon { vertices, .. } => assert_eq!(vertices[0].position, v(-1, -1)),
        Shape::Circle { .. } => panic!("polygon expected"),
    }
}

#[test]
fn polygon_is_recentred_on_its_centroid() {
    let mut shape = Shape::rect(v(1, 1));
    if let Shape::Polygon { vertices, .. } = &mut shape {
        for vertex in vertices.iter_mut() {
            vertex.position = vertex.position.add(v(3, 2));
        }
    }
    let b = Body::new(shape, v(0, 0));
    let near = |a: Vec2, b: Vec2| (a.x.raw - b.x.raw).abs() <= 100 && (a.y.raw - b.y.raw).abs() <= 100;
    match &b.shape {
        Shape::Polygon { vertices, .. } => {
            assert!(near(vertices[0].position, v(-1, -1)));
            assert!(near(vertices[2].position, v(1, 1)));
            assert_eq!(vertices[0].normal, v(0, -1));
        }
        Shape::Circle { .. } => panic!("polygon expected"),
    }
    assert_eq!(b.mass.raw, 4 * SCALE);
}

#[test]
fn set_static_zeroes_mass_terms() {
    let mut b = Body::new(Shape::Circle { radius: Real::from_int(3) }, v(0, 0));
    b.set_static();
    assert_eq!(b.mass.raw, 0);
    assert_eq!(b.inv_mass.raw, 0);
    assert_eq!(b.moment_inertia.raw, 0);
    assert_eq!(b.inv_inertia.raw, 0);
}

#[test]
fn apply_force_accumulates() {
    let mut b = Body::new(Shape::Circle { radius: Real::from_int(1) }, v(0, 0));
    b.apply_force(v(1, 2));
    b.apply_force(v(3, -5));
    assert_eq!(b.force, v(4, -3));
}

#[test]
fn apply_impulse_changes_velocity_and_spin() {
    let mut b = Body::new(Shape::Circle { radius: Real::from_int(1) }, v(0, 0));
    b.inv_mass = Real::from_milli(500);
    b.inv_inertia = Real::from_milli(250);
    b.apply_impulse(v(4, 0), v(0, 2));
    assert_eq!(b.velocity, v(2, 0));
    // cross((0, 2), (4, 0)) = -8; times 0.25
    assert_eq!(b.angular_velocity.raw, -2 * SCALE);
}

#[test]
fn equal_and_opposite_impulses_keep_momentum() {
    let mut a = Body::new(Shape::Circle { radius: Real::from_int(2) }, v(0, 0));
    let mut b = Body::new(Shape::Circle { radius: Real::from_int(2) }, v(4, 0));
    a.velocity = v(3, -1);
    b.velocity = v(-2, 7);
    let impulse = Vec2::new(Real::from_milli(12_345), Real::from_milli(-6_789));
    a.apply_impulse(impulse.neg(), v(2, 0));
    b.apply_impulse(impulse, v(-2, 0));
    assert_ne!(a.velocity, v(3, -1));
    assert_eq!(a.velocity.x.raw + b.velocity.x.raw, SCALE);
    assert_eq!(a.velocity.y.raw + b.velocity.y.raw, 6 * SCALE);
}

#[test]
fn set_orient_rotates_polygons() {
    let mut b = Body::new(Shape::rect(v(1, 1)), v(0, 0));
    b.set_orient(Real { raw: 1_570_796_327 });
    assert_eq!(b.orient.raw, 1_570_796_327);
    match &b.shape {
        Shape::Polygon { orientation, .. } => {
            assert!(orientation.m00.raw.abs() <= 10);
            assert!((orientation.m01.raw + SCALE).abs() <= 10);
            assert!((orientation.m10.raw - SCALE).abs() <= 10);
            assert!(orientation.m11.raw.abs() <= 10);
        }
        Shape::Circle { .. } => panic!("polygon expected"),
    }
    let mut c = Body::new(Shape::Circle { radius: Real::from_int(1) }, v(0, 0));
    c.set_orient(Real::from_int(2));
    assert_eq!(c.orient.raw, 2 * SCALE);
}

#[test]
fn static_bodies_do_not_integrate() {
    let mut b = Body::new(Shape::Circle { radius: Real::from_int(1) }, v(1, 1));
    b.set_static();
    b.velocity = v(5, 5);
    b.integrate_forces(Real::from_int(1));
    b.integrate_velocity(Real::from_int(1));
    assert_eq!(b.position, v(1, 1));
    assert_eq!(b.velocity, v(5, 5));
}

#[test]
fn half_step_force_integration() {
    let mut b = Body::new(Shape::Circle { radius: Real::from_int(1) }, v(0, 0));
    b.inv_mass = Real::from_milli(500);
    b.inv_inertia = Real::from_milli(100);
    b.force = v(10, 0);
    b.torque = Real::from_int(20);
    b.integrate_forces(Real::from_milli(100));
    // (force * inv_mass + gravity) * delta / 2 = (5, 500) * 0.05
    assert_eq!(b.velocity, Vec2::new(Real::from_milli(250), Real::from_int(25)));
    // torque * inv_inertia * delta / 2 = 20 * 0.1 * 0.05
    assert_eq!(b.angular_velocity.raw, 100_000_000);
}

#[test]
fn velocity_integration_moves_then_integrates_forces() {
    let mut b = Body::new(Shape::Circle { radius: Real::from_int(1) }, v(0, 0));
    b.velocity = v(2, 3);
    b.angular_velocity = Real::from_int(1);
    b.integrate_velocity(Real::from_milli(500));
    assert_eq!(b.position, Vec2::new(Real::from_int(1), Real::from_milli(1500)));
    assert_eq!(b.orient.raw, SCALE / 2);
    // second half step of gravity: 500 * 0.25
    assert_eq!(b.velocity, Vec2::new(Real::from_int(2), Real::from_int(128)));
}

#[test]
fn zero_density_gives_zero_inverses() {
    let b = Body::with_density(Shape::Circle { radius: Real::from_int(4) }, v(0, 0), Real::zero());
    assert_eq!(b.mass.raw, 0);
    assert_eq!(b.inv_mass.raw, 0);
    assert_eq!(b.moment_inertia.raw, 0);
    assert_eq!(b.inv_inertia.raw, 0);
}

#[test]
fn ring_indices_wrap() {
    assert_eq!(next_index(0, 4), 1);
    assert_eq!(next_index(2, 4), 3);
    assert_eq!(next_index(3, 4), 0);
}

#[test]
fn rotation_matrices() {
    let identity = rotation(Real::zero());
    assert_eq!(identity.m00.raw, SCALE);
    assert_eq!(identity.m01.raw, 0);
    assert_eq!(identity.m10.raw, 0);
    assert_eq!(identity.m11.raw, SCALE);
    let quarter = rotation(Real { raw: 1_570_796_327 });
    let turned = quarter.mul_vec(v(1, 0));
    assert!(turned.x.raw.abs() <= 10);
    assert!((turned.y.raw - SCALE).abs() <= 10);
    let back = quarter.transpose().mul_vec(turned);
    assert!((back.x.raw - SCALE).abs() <= 20);
    assert!(back.y.raw.abs() <= 20);
}
