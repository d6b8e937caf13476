use impulse::body::{Body, Shape};
use impulse::fixed::{Real, SCALE};
use impulse::scene::Scene;
use impulse::types::{Mat2, Vec2};

fn v(x: i32, y: i32) -> Vec2 {
    Vec2::new(Real::from_int(x), Real::from_int(y))
}

fn circle(radius: i32, x: i32, y: i32) -> Body {
    Body::new(Shape::Circle { radius: Real::from_int(radius) }, v(x, y))
}

fn frame() -> Real {
    Real::from_int(1).div(Real::from_int(60))
}

fn gap(scene: &Scene) -> i64 {
    scene.bodies[1].position.x.raw - scene.bodies[0].position.x.raw
}

#[test]
fn new_scene_is_empty() {
    let mut scene = Scene::new();
    assert_eq!(scene.bodies.len(), 0);
    assert_eq!(scene.iterations, 10);
    scene.step(frame());
    scene.add(circle(1, 0, 0));
    scene.add(circle(2, 5, 0));
    assert_eq!(scene.bodies.len(), 2);
    assert_eq!(scene.bodies[1].position, v(5, 0));
}

#[test]
fn lone_circle_falls_ever_faster() {
    let mut scene = Scene::new();
    scene.add(circle(10, 0, 0));
    let mut last_velocity = scene.bodies[0].velocity.y.raw;
    let mut last_y = scene.bodies[0].position.y.raw;
    for _ in 0..30 {
        scene.step(frame());
        let b = &scene.bodies[0];
        assert!(b.velocity.y.raw > last_velocity);
        assert!(b.position.y.raw > last_y);
        assert_eq!(b.position.x.raw, 0);
        last_velocity = b.velocity.y.raw;
        last_y = b.position.y.raw;
    }
    // each half step adds 500 * (1/60 / 2), truncated: 500 * 0.008333333
    assert_eq!(last_velocity, 30 * 2 * 500 * 8_333_333);
}

#[test]
fn free_fall_first_tick() {
    let mut scene = Scene::new();
    scene.add(circle(1, 0, 0));
    scene.step(Real::from_milli(100));
    let b = &scene.bodies[0];
    // half step: v = 25; move: y = 2.5; half step: v = 50
    assert_eq!(b.velocity, v(0, 50));
    assert_eq!(b.position, Vec2::new(Real::zero(), Real::from_milli(2500)));
    assert_eq!(b.force, Vec2::zero());
    assert_eq!(b.torque.raw, 0);
}

#[test]
fn forces_are_cleared_each_tick() {
    let mut scene = Scene::new();
    let mut b = circle(1, 0, 0);
    b.apply_force(v(100, 0));
    b.torque = Real::from_int(3);
    scene.add(b);
    scene.step(frame());
    assert_eq!(scene.bodies[0].force, Vec2::zero());
    assert_eq!(scene.bodies[0].torque.raw, 0);
    assert!(scene.bodies[0].velocity.x.raw > 0);
}

#[test]
fn static_bodies_never_move() {
    let mut scene = Scene::new();
    let mut floor = circle(50, 0, 60);
    floor.set_static();
    floor.apply_force(v(1000, 1000));
    floor.apply_impulse(v(500, 500), v(1, 1));
    scene.add(floor);
    scene.add(circle(10, 0, 0));
    let mut wall = Body::new(Shape::rect(v(5, 40)), v(30, 0));
    wall.set_orient(Real::from_milli(300));
    wall.set_static();
    scene.add(wall);
    let wall_orient = scene.bodies[2].orient;
    for _ in 0..120 {
        scene.step(frame());
        assert_eq!(scene.bodies[0].position, v(0, 60));
        assert_eq!(scene.bodies[0].orient.raw, 0);
        assert_eq!(scene.bodies[2].position, v(30, 0));
        assert_eq!(scene.bodies[2].orient, wall_orient);
    }
}

#[test]
fn ball_comes_to_rest_on_static_floor() {
    let mut scene = Scene::new();
    let mut floor = circle(50, 0, 70);
    floor.set_static();
    scene.add(floor);
    scene.add(circle(10, 0, 0));
    for _ in 0..600 {
        scene.step(frame());
    }
    let ball = &scene.bodies[1];
    // resting on top of the floor: centre 60 above the floor's centre
    assert!((ball.position.y.raw - 10 * SCALE).abs() < SCALE);
    assert!(ball.position.x.raw.abs() < SCALE);
}

#[test]
fn ball_lands_on_static_box() {
    let mut scene = Scene::new();
    let mut ground = Body::new(Shape::rect(v(100, 10)), v(0, 50));
    ground.set_static();
    scene.add(ground);
    scene.add(circle(5, 0, 0));
    for _ in 0..600 {
        scene.step(frame());
    }
    let ball = &scene.bodies[1];
    // top face at y = 40, so the centre rests near y = 35
    assert!((ball.position.y.raw - 35 * SCALE).abs() < SCALE);
}

#[test]
fn positional_correction_reduces_penetration() {
    let mut scene = Scene::new();
    scene.add(circle(5, 0, 0));
    scene.add(circle(5, 8, 0));
    let mut penetration = 10 * SCALE - gap(&scene);
    assert_eq!(penetration, 2 * SCALE);
    for _ in 0..40 {
        scene.step(frame());
        let next = 10 * SCALE - gap(&scene);
        assert!(next <= penetration);
        assert!(next >= 50_000_000 - 1000);
        penetration = next;
    }
    assert!(penetration < 60_000_000);
    // both fall together
    assert_eq!(scene.bodies[0].position.y, scene.bodies[1].position.y);
}

#[test]
fn head_on_collision_keeps_momentum() {
    let mut scene = Scene::new();
    let mut a = circle(5, 0, 0);
    let mut b = circle(5, 9, 0);
    a.velocity = v(30, 0);
    b.velocity = v(-10, 0);
    scene.add(a);
    scene.add(b);
    scene.step(frame());
    let sum = scene.bodies[0].velocity.x.raw + scene.bodies[1].velocity.x.raw;
    assert!((sum - 20 * SCALE).abs() <= 100);
    // the bodies now separate
    assert!(scene.bodies[1].velocity.x.raw > scene.bodies[0].velocity.x.raw);
}

#[test]
fn validity_of_worlds() {
    let mut scene = Scene::new();
    scene.add(circle(5, 0, 0));
    let mut first = Body::new(Shape::rect(v(5, 5)), v(50, 0));
    first.set_static();
    scene.add(first);
    let mut second = Body::new(Shape::rect(v(5, 5)), v(100, 0));
    second.set_static();
    scene.add(second);
    assert!(scene.is_valid());
    scene.add(Body::new(Shape::rect(v(5, 5)), v(150, 0)));
    assert!(!scene.is_valid());
    let mut lone = Scene::new();
    lone.add(Body::new(Shape::rect(v(5, 5)), v(0, 0)));
    lone.add(circle(1, 40, 0));
    assert!(lone.is_valid());
    let mut degenerate = circle(1, 80, 0);
    degenerate.shape = Shape::Polygon { orientation: Mat2::identity(), vertices: vec![] };
    lone.add(degenerate);
    assert!(!lone.is_valid());
}
