//! Exact-value checks for the primitive shapes and the boolean
//! combinators. All coordinates are in fixed-point units: 1024 units
//! per pixel.
use sdf_light::shape::{Capsule, Circle, Plane, Rect, Shape, Shapes, Triangle};

#[test]
fn circle_exact_distance() {
    // A degenerate circle of radius 0 at the origin: the signed
    // distance is the plain distance to the centre.
    let c = Circle::new(0, 0, 0, 0);
    assert_eq!(c.sdf(3, 4).sd, 5);
    assert_eq!(c.sdf(0, 0).sd, 0);
}

#[test]
fn circle_center_and_boundary() {
    // Circle at pixel (256, 192), radius 64 pixels, emissive 1.0.
    let c = Circle::new(256 * 1024, 192 * 1024, 64 * 1024, 1024);
    let at_center = c.sdf(256 * 1024, 192 * 1024);
    assert_eq!(at_center.sd, -64 * 1024);
    assert_eq!(at_center.emissive, 1024);
    let at_boundary = c.sdf(256 * 1024 + 64 * 1024, 192 * 1024);
    assert_eq!(at_boundary.sd, 0);
}

#[test]
fn requery_is_bit_identical() {
    let a = Circle::new(1000, -2000, 500, 700);
    let b = Circle::new(-3000, 4000, 2500, 900);
    let tree = Shapes::subtract(
        Shapes::union(Shape::Circle(a), Shape::Circle(b)),
        Shape::Circle(Circle::new(0, 0, 100, 300)),
    );
    let first = tree.sdf(123, -456);
    let second = tree.sdf(123, -456);
    assert_eq!(first, second);
}

#[test]
fn union_takes_min_and_winning_emissive() {
    let a = Circle::new(0, 0, 100, 7);
    let b = Circle::new(0, 0, 50, 9);
    let u = Shapes::union(Shape::Circle(a), Shape::Circle(b));
    let r = u.sdf(0, 0);
    // a: sd = -100, b: sd = -50; the smaller wins with its emissive.
    assert_eq!(r.sd, -100);
    assert_eq!(r.emissive, 7);
}

#[test]
fn intersect_takes_max_and_winning_emissive() {
    let a = Circle::new(0, 0, 100, 7);
    let b = Circle::new(0, 0, 50, 9);
    let i = Shapes::intersect(Shape::Circle(a), Shape::Circle(b));
    let r = i.sdf(0, 0);
    // a: sd = -100, b: sd = -50; the larger wins with its emissive.
    assert_eq!(r.sd, -50);
    assert_eq!(r.emissive, 9);
}

#[test]
fn subtract_takes_max_of_negated() {
    let a = Circle::new(0, 0, 100, 7);
    let b = Circle::new(0, 0, 50, 9);
    let s = Shapes::subtract(Shape::Circle(a), Shape::Circle(b));
    let r = s.sdf(0, 0);
    // a: sd = -100, b: sd = -50; max(-100, 50) = 50: the origin was
    // carved out of a.
    assert_eq!(r.sd, 50);
    assert_eq!(r.emissive, 7);
}

#[test]
fn subtract_emissive_is_retained_shape() {
    // Query strictly inside a and outside b: the result must carry
    // a's emissive, never b's.
    let a = Circle::new(0, 0, 100 * 1024, 111);
    let b = Circle::new(90 * 1024, 0, 5 * 1024, 999);
    let s = Shapes::subtract(Shape::Circle(a), Shape::Circle(b));
    let r = s.sdf(0, 0);
    assert!(r.sd < 0);
    assert_eq!(r.emissive, 111);
}

#[test]
fn plane_half_space() {
    // Boundary through the origin, unit normal along +x.
    let p = Plane::new(0, 0, 1024, 0, 5);
    assert_eq!(p.sdf(2048, 777).sd, 2048);
    assert_eq!(p.sdf(-2048, -777).sd, -2048);
    assert_eq!(p.sdf(0, 12345).sd, 0);
    assert_eq!(p.sdf(0, 0).emissive, 5);
}

#[test]
fn capsule_around_segment() {
    // Spine from (0, 0) to (10240, 0), radius one pixel.
    let c = Capsule::new(0, 0, 10240, 0, 1024, 3);
    // Above the middle of the spine: two pixels up, one past the
    // radius.
    assert_eq!(c.sdf(5120, 2048).sd, 1024);
    // On the spine: fully inside.
    assert_eq!(c.sdf(5120, 0).sd, -1024);
    // Past endpoint a, along the axis.
    assert_eq!(c.sdf(-2048, 0).sd, 1024);
}

#[test]
fn capsule_zero_length_segment_acts_as_point() {
    let c = Capsule::new(100, 200, 100, 200, 50, 1);
    assert_eq!(c.sdf(103, 204).sd, -45);
}

#[test]
fn rect_axis_aligned() {
    // Unrotated square of half-extent one pixel at the origin.
    let r = Rect::new(0, 0, 1024, 0, 1024, 1024, 2);
    // Two pixels right of the right edge.
    assert_eq!(r.sdf(3072, 0).sd, 2048);
    // At the centre: one pixel inside on both axes.
    assert_eq!(r.sdf(0, 0).sd, -1024);
    // Diagonally past a corner by (1024, 1024): corner distance.
    let diag = r.sdf(2048, 2048).sd;
    // floor(sqrt(1024^2 + 1024^2)) = 1448.
    assert_eq!(diag, 1448);
}

#[test]
fn triangle_inside_and_out() {
    // Counter-clockwise right triangle (0,0), (10240,0), (0,10240).
    let t = Triangle::new(0, 0, 10240, 0, 0, 10240, 4);
    let inside = t.sdf(1024, 1024);
    assert_eq!(inside.sd, -1024);
    assert_eq!(inside.emissive, 4);
    // Below the bottom edge.
    assert_eq!(t.sdf(5120, -2048).sd, 2048);
}

#[test]
fn segment_distance_endpoints_and_interior() {
    assert_eq!(Triangle::segment_sdf(5120, 2048, 0, 0, 10240, 0), 2048);
    assert_eq!(Triangle::segment_sdf(-3, -4, 0, 0, 10240, 0), 5);
    assert_eq!(Triangle::segment_sdf(10243, 4, 0, 0, 10240, 0), 5);
}
