use impulse::body::{Body, Shape};
use impulse::collision::{circle_circle, circle_polygon, relative_velocity, ManifoldData};
use impulse::fixed::{Real, SCALE};
use impulse::operations::{cross_real_vector, cross_vectors, dist_sqr, float_cmp, len_sqr};
use impulse::scene::{clamp_friction, EPSILON_RAW};
use impulse::types::{Mat2, Vec2};

fn v(x: i32, y: i32) -> Vec2 {
    Vec2::new(Real::from_int(x), Real::from_int(y))
}

fn circle(radius: i32, x: i32, y: i32) -> Body {
    Body::new(Shape::Circle { radius: Real::from_int(radius) }, v(x, y))
}

fn polygon_test(c: &Body, p: &Body) -> Option<ManifoldData> {
    let radius = match c.shape {
        Shape::Circle { radius } => radius,
        Shape::Polygon { .. } => panic!("circle expected"),
    };
    match &p.shape {
        Shape::Polygon { orientation, vertices } => circle_polygon((0, radius, c), (1, orientation, vertices, p)),
        Shape::Circle { .. } => panic!("polygon expected"),
    }
}

#[test]
fn vector_operations() {
    assert_eq!(cross_vectors(v(2, 3), v(4, 5)).raw, -2 * SCALE);
    assert_eq!(cross_real_vector(Real::from_int(2), v(3, 4)), v(-8, 6));
    assert_eq!(len_sqr(v(3, 4)).raw, 25 * SCALE);
    assert_eq!(dist_sqr(v(1, 1), v(4, 5)).raw, 25 * SCALE);
    assert!(float_cmp(Real::zero(), Real { raw: EPSILON_RAW }));
    assert!(!float_cmp(Real::zero(), Real { raw: EPSILON_RAW + 1 }));
    assert!(float_cmp(Real { raw: -EPSILON_RAW }, Real::zero()));
}

#[test]
fn circle_circle_contact_exactness() {
    let a = circle(5, 0, 0);
    let b = circle(5, 8, 0);
    let m = circle_circle((0, Real::from_int(5), &a), (1, Real::from_int(5), &b)).expect("contact");
    assert_eq!(m.pair, (0, 1));
    assert_eq!(m.penetration.raw, 2 * SCALE);
    assert_eq!(m.normal, v(1, 0));
    assert_eq!(m.contacts, vec![v(5, 0)]);
}

#[test]
fn circle_circle_non_contact() {
    let a = circle(5, 0, 0);
    let b = circle(5, 11, 0);
    assert!(circle_circle((0, Real::from_int(5), &a), (1, Real::from_int(5), &b)).is_none());
    let touching = circle(5, 10, 0);
    assert!(circle_circle((0, Real::from_int(5), &a), (1, Real::from_int(5), &touching)).is_none());
}

#[test]
fn circle_circle_diagonal() {
    let a = circle(3, 0, 0);
    let b = circle(4, 3, 4);
    let m = circle_circle((2, Real::from_int(3), &a), (7, Real::from_int(4), &b)).expect("contact");
    assert_eq!(m.pair, (2, 7));
    assert_eq!(m.penetration.raw, 2 * SCALE);
    assert_eq!(m.normal, Vec2::new(Real::from_milli(600), Real::from_milli(800)));
    assert_eq!(m.contacts, vec![Vec2::new(Real::from_milli(1800), Real::from_milli(2400))]);
}

#[test]
fn circle_circle_same_centre() {
    let a = circle(2, 1, 1);
    let b = circle(6, 1, 1);
    let m = circle_circle((0, Real::from_int(2), &a), (1, Real::from_int(6), &b)).expect("contact");
    assert_eq!(m.penetration.raw, 2 * SCALE);
    assert_eq!(m.normal, v(1, 0));
    assert_eq!(m.contacts, vec![v(1, 1)]);
}

#[test]
fn circle_polygon_face_contact() {
    let c = circle(5, 0, -12);
    let p = Body::new(Shape::rect(v(10, 10)), v(0, 0));
    let m = polygon_test(&c, &p).expect("contact");
    assert_eq!(m.pair, (0, 1));
    assert_eq!(m.penetration.raw, 3 * SCALE);
    assert_eq!(m.normal, v(0, 1));
    assert_eq!(m.contacts, vec![v(0, -7)]);
}

#[test]
fn circle_polygon_separated() {
    let c = circle(5, 0, -16);
    let p = Body::new(Shape::rect(v(10, 10)), v(0, 0));
    assert!(polygon_test(&c, &p).is_none());
    let corner = circle(1, 12, 12);
    assert!(polygon_test(&corner, &p).is_none());
}

#[test]
fn circle_polygon_centre_inside() {
    let c = circle(2, 1, -3);
    let p = Body::new(Shape::rect(v(10, 10)), v(0, 0));
    let m = polygon_test(&c, &p).expect("contact");
    // the centre is inside; the nearest face is the bottom one, 7 away
    assert_eq!(m.penetration.raw, 2 * SCALE);
    assert_eq!(m.normal, v(0, 1));
    assert_eq!(m.contacts, vec![v(1, -1)]);
}

#[test]
fn circle_polygon_vertex_contact() {
    let c = circle(5, 13, 14);
    let p = Body::new(Shape::rect(v(10, 10)), v(0, 0));
    let m = polygon_test(&c, &p).expect("contact");
    // nearest feature: the corner (10, 10), exactly one radius away
    assert_eq!(m.contacts, vec![v(10, 10)]);
    assert_eq!(m.normal, Vec2::new(Real::from_milli(-600), Real::from_milli(-800)));
    assert!(polygon_test(&circle(5, 14, 14), &p).is_none());
}

#[test]
fn circle_polygon_rotated() {
    let c = circle(5, -12, 0);
    let mut p = Body::new(Shape::rect(v(10, 10)), v(0, 0));
    p.set_orient(Real { raw: 1_570_796_327 });
    let m = polygon_test(&c, &p).expect("contact");
    assert!((m.penetration.raw - 3 * SCALE).abs() <= 100);
    assert!((m.normal.x.raw - SCALE).abs() <= 100);
    assert!(m.normal.y.raw.abs() <= 100);
}

#[test]
fn circle_polygon_offset_polygon() {
    let c = circle(5, 100, 88);
    let p = Body::new(Shape::rect(v(10, 10)), v(100, 100));
    let m = polygon_test(&c, &p).expect("contact");
    assert_eq!(m.penetration.raw, 3 * SCALE);
    assert_eq!(m.normal, v(0, 1));
    assert_eq!(m.contacts, vec![v(100, 93)]);
    let identity = Mat2::identity();
    assert_eq!(identity.mul_vec(v(3, 4)), v(3, 4));
}

#[test]
fn manifold_initialization() {
    let mut a = circle(5, 0, 0);
    let mut b = circle(5, 8, 0);
    let data = circle_circle((0, Real::from_int(5), &a), (1, Real::from_int(5), &b)).expect("contact");
    b.restitution = Real::from_milli(100);
    a.static_friction = Real::from_milli(-700);
    a.dynamic_friction = Real::from_milli(400);
    // at rest: restitution is dropped
    let resting = data.initialize(Real::from_milli(16), &a, &b);
    assert_eq!(resting.e.raw, 0);
    assert_eq!(resting.sf, Real::from_milli(700));
    assert_eq!(resting.df, Real::from_milli(400));
    assert_eq!(resting.pair, (0, 1));
    assert_eq!(resting.penetration.raw, 2 * SCALE);
    assert_eq!(resting.contacts, data.contacts);
    // closing fast: the smaller restitution
    a.velocity = v(100, 0);
    let closing = data.initialize(Real::from_milli(16), &a, &b);
    assert_eq!(closing.e, Real::from_milli(100));
}

#[test]
fn friction_clamp() {
    let j = Real::from_int(10);
    let sf = Real::from_milli(500);
    let df = Real::from_milli(300);
    assert_eq!(clamp_friction(Real::from_int(2), j, sf, df), Real::from_int(2));
    assert_eq!(clamp_friction(Real::from_int(-2), j, sf, df), Real::from_int(-2));
    assert_eq!(clamp_friction(Real::from_int(7), j, sf, df), Real::from_int(-3));
    assert_eq!(clamp_friction(Real::from_int(-9), j, sf, df), Real::from_int(-3));
    for k in -40..40 {
        let jt = Real::from_milli(k * 500);
        let out = clamp_friction(jt, j, df, df);
        assert!(out.abs().raw <= j.mul(df).raw);
    }
}

#[test]
fn relative_velocity_at_a_contact() {
    let mut a = circle(1, 0, 0);
    let mut b = circle(1, 2, 0);
    a.velocity = v(1, 0);
    b.velocity = v(-1, 0);
    b.angular_velocity = Real::from_int(2);
    // contact at (1, 0): arm from b is (-1, 0); spin adds 2 x (-1, 0) = (0, -2)
    assert_eq!(relative_velocity(&a, &b, v(1, 0)), v(-2, -2));
}

#[test]
fn circle_polygon_face_touching_is_no_contact() {
    // the centre is exactly one radius below the bottom face: zero penetration
    let c = circle(5, 0, -15);
    let p = Body::new(Shape::rect(v(10, 10)), v(0, 0));
    assert!(polygon_test(&c, &p).is_none());
    let just_inside = Body::new(Shape::Circle { radius: Real::from_int(5) }, Vec2::new(Real::zero(), Real { raw: -15 * SCALE + 1 }));
    let m = polygon_test(&just_inside, &p).expect("contact");
    assert_eq!(m.penetration.raw, 1);
    assert_eq!(m.normal, v(0, 1));
}
