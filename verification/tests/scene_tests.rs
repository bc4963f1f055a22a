//! Scene configuration, sphere tracing and rendering, with a seeded
//! random stream where jitters cannot be supplied directly.
use rand::SeedableRng;
use rand::rngs::StdRng;
use sdf_light::scene::{RenderError, Scene};
use sdf_light::shape::{Circle, Shape};

fn circle_px(x: i64, y: i64, r: i64, emissive: i64) -> Shape {
    Shape::Circle(Circle::new(x * 1024, y * 1024, r * 1024, emissive))
}

#[test]
fn one_circle() {
    // The classic three-circle scene, at a 4:3 size small enough for
    // an unoptimised run: circles at (0.3, 0.3), (0.3, 0.7) and
    // (0.7, 0.5) of the image, radii 0.1, 0.05 and 0.1 of the width,
    // emissive 2.0, 0.8 and 0.8.
    let width: u32 = 64;
    let height: u32 = 48;
    let mut scene = Scene::new(width, height).unwrap();
    scene.set_sample_count(4).unwrap();
    scene.add_shape(Shape::Circle(Circle::new(19660, 14745, 6553, 2048)));
    scene.add_shape(Shape::Circle(Circle::new(19660, 34406, 3276, 819)));
    scene.add_shape(Shape::Circle(Circle::new(45875, 24576, 6553, 819)));
    let mut rng = StdRng::seed_from_u64(1);
    let buf = scene.render(&mut rng);
    assert_eq!(buf.len(), (width * height * 3) as usize);
    // The brightest circle's centre pixel saturates.
    let center = 3 * ((14 * width + 19) as usize);
    assert_eq!(buf[center], 255);
}

#[test]
fn invalid_config_rejected() {
    assert_eq!(Scene::new(0, 384).unwrap_err(), RenderError::InvalidConfig);
    assert_eq!(Scene::new(512, 0).unwrap_err(), RenderError::InvalidConfig);
    assert_eq!(Scene::new(0, 0).unwrap_err(), RenderError::InvalidConfig);
    assert_eq!(Scene::new(5000, 10).unwrap_err(), RenderError::InvalidConfig);
    let mut scene = Scene::new(512, 384).unwrap();
    assert_eq!(scene.width, 512);
    assert_eq!(scene.height, 384);
    assert_eq!(scene.sample_count, 64);
    assert_eq!(scene.max_step, 10);
    assert_eq!(scene.set_sample_count(0).unwrap_err(), RenderError::InvalidConfig);
    assert_eq!(scene.sample_count, 64);
    scene.set_sample_count(4).unwrap();
    assert_eq!(scene.sample_count, 4);
    assert_eq!(scene.set_max_step(0).unwrap_err(), RenderError::InvalidConfig);
    scene.set_max_step(20).unwrap();
    assert_eq!(scene.max_step, 20);
}

#[test]
fn hit_scenario_center_circle() {
    // A single circle at pixel (256, 192) of radius 64, emissive 1.0,
    // on a 512 x 384 image.
    let mut scene = Scene::new(512, 384).unwrap();
    scene.add_shape(circle_px(256, 192, 64, 1024));

    // A ray from the circle's centre: already inside, an immediate hit
    // returning the circle's emissive value.
    assert_eq!(scene.trace(256 * 1024, 192 * 1024, 1024, 0), 1024);

    // A ray from pixel (100, 192) marching right: the gap of 92 pixels
    // closes within the ten-step budget and the ray hits the boundary.
    assert_eq!(scene.trace(100 * 1024, 192 * 1024, 1024, 0), 1024);

    // Sampling the centre pixel: every direction hits, so the mean is
    // the full emissive 1.0 and the pixel saturates at 255.
    let jitters = vec![0i64; 64];
    let v = scene.sample_with_jitters(256 * 1024, 192 * 1024, &jitters);
    assert_eq!(v, 255);
    assert!(v > 0);
}

#[test]
fn miss_scenario_far_pixel_is_black() {
    // Only a circle of radius 10 pixels at the origin; pixel (500, 500)
    // lies farther away than the image diagonal, so every sample is a
    // miss and the intensity is exactly 0.
    let mut scene = Scene::new(512, 384).unwrap();
    scene.add_shape(circle_px(0, 0, 10, 1024));
    let jitters = vec![500i64; 64];
    let v = scene.sample_with_jitters(500 * 1024, 500 * 1024, &jitters);
    assert_eq!(v, 0);
}

#[test]
fn clamp_scenario_bright_shape_saturates() {
    // An emissive-2.0 circle fully surrounding the sampled point: the
    // mean light is 2.0, and the pixel clamps to exactly 255.
    let mut scene = Scene::new(512, 384).unwrap();
    scene.add_shape(circle_px(256, 192, 100, 2048));
    let jitters = vec![777i64; 64];
    let v = scene.sample_with_jitters(256 * 1024, 192 * 1024, &jitters);
    assert_eq!(v, 255);
}

#[test]
fn empty_scene_renders_black() {
    let scene = Scene::new(16, 8).unwrap();
    let mut rng = StdRng::seed_from_u64(3);
    let buf = scene.render(&mut rng);
    assert_eq!(buf.len(), 16 * 8 * 3);
    assert!(buf.iter().all(|&b| b == 0));
}

#[test]
fn render_is_greyscale_and_reproducible() {
    let mut scene = Scene::new(32, 24).unwrap();
    scene.add_shape(circle_px(16, 12, 6, 1024));
    scene.set_sample_count(8).unwrap();
    let mut rng_a = StdRng::seed_from_u64(42);
    let buf_a = scene.render(&mut rng_a);
    let mut rng_b = StdRng::seed_from_u64(42);
    let buf_b = scene.render(&mut rng_b);
    assert_eq!(buf_a.len(), 32 * 24 * 3);
    // A seeded generator gives a reproducible stream, so the images
    // are identical byte for byte.
    assert_eq!(buf_a, buf_b);
    // Three equal channels per pixel.
    for p in 0..(32 * 24) {
        assert_eq!(buf_a[3 * p], buf_a[3 * p + 1]);
        assert_eq!(buf_a[3 * p], buf_a[3 * p + 2]);
    }
    // The circle's pixels actually received light.
    let center = 3 * (12 * 32 + 16);
    assert!(buf_a[center] > 0);
}

#[test]
fn add_shape_unions_onto_root() {
    // The second added shape is unioned with the first: a query inside
    // the second shape sees it.
    let mut scene = Scene::new(512, 384).unwrap();
    scene.add_shape(circle_px(10, 10, 5, 512));
    scene.add_shape(circle_px(400, 300, 5, 900));
    let near_second = scene.sdf(400 * 1024, 300 * 1024);
    assert_eq!(near_second.sd, -5 * 1024);
    assert_eq!(near_second.emissive, 900);
    let near_first = scene.sdf(10 * 1024, 10 * 1024);
    assert_eq!(near_first.emissive, 512);
}
