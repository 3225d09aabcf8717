use ray_tracer::camera::Camera;
use ray_tracer::fixed::SCALE;
use ray_tracer::hittable::Hittable;
use ray_tracer::hittable_list::HittableList;
use ray_tracer::material::Lambertian;
use ray_tracer::render::{ray_color, render, render_rows, row_ranges, worker_seed};
use ray_tracer::rng::Rng;
use ray_tracer::sphere::Sphere;
use ray_tracer::vec3::Vec3;

#[test]
fn pixel_encoding_matches_reference_formula() {
    // The accumulated color (2.0, 8.0, 0.5) over 4 samples averages to
    // (0.5, 2.0, 0.125); after the square root, the clamp to 0.999 and
    // the 255.999 scale, the bytes are (181, 255, 90).
    let c = Vec3::from(2 * SCALE, 8 * SCALE, SCALE / 2);
    let bytes = c.color_to_u8(4);
    assert_eq!(bytes, [181, 255, 90]);

    // The same triple the double-precision reference formula yields.
    let expected = |v: f64| (255.999 * f64::sqrt(v).min(0.999).max(0.0)) as u8;
    assert_eq!(bytes, [expected(0.5), expected(2.0), expected(0.125)]);
}

#[test]
fn pixel_encoding_clamps_negative_channels_to_zero() {
    let c = Vec3::from(-SCALE, 0, 0);
    assert_eq!(c.color_to_u8(1), [0, 0, 0]);
}

#[test]
fn pixel_encoding_full_intensity_saturates_through_clamp() {
    // A channel at 1.0 is clamped to 0.999 before scaling:
    // 255.999 * 0.999 truncates to 255.
    let c = Vec3::from(SCALE, SCALE, SCALE);
    assert_eq!(c.color_to_u8(1), [255, 255, 255]);
}

#[test]
fn camera_builds_orthonormal_basis() {
    // Looking down -z with +y up: w = +z, u = +x, v = +y, and the lens
    // radius is half the aperture.
    let camera = Camera::new(
        Vec3::from(0, 0, 0),
        Vec3::from(0, 0, -SCALE),
        Vec3::from(0, SCALE, 0),
        90 * SCALE,
        SCALE,
        100_000_000,
        SCALE,
    );
    assert_eq!((camera.w.x, camera.w.y, camera.w.z), (0, 0, SCALE));
    assert_eq!((camera.u.x, camera.u.y, camera.u.z), (SCALE, 0, 0));
    assert_eq!((camera.v.x, camera.v.y, camera.v.z), (0, SCALE, 0));
    assert_eq!(camera.lens_radius, 50_000_000);
}

#[test]
fn render_rows_empty_range_yields_no_bytes() {
    let world = demo_scene();
    assert!(world.wf_check());
    let camera = demo_camera();
    let chunk = render_rows(&world, &camera, 8, 8, 1, 2, 3, 3, 1);
    assert!(chunk.is_empty());
}

#[test]
fn row_partition_covers_every_row_once() {
    for (height, workers) in
        [(10usize, 3usize), (3, 8), (1, 1), (100, 7), (64, 64), (5, 2), (0, 4)]
    {
        let ranges = row_ranges(height, workers);
        assert_eq!(ranges.len(), workers);
        let mut seen = vec![0usize; height];
        for &(start, end) in &ranges {
            assert!(start <= end && end <= height);
            for item in seen.iter_mut().take(end).skip(start) {
                *item += 1;
            }
        }
        for (row, count) in seen.iter().enumerate() {
            assert_eq!(*count, 1, "row {row} of {height} across {workers} workers");
        }
    }
}

#[test]
fn row_partition_concrete_ranges() {
    let ranges = row_ranges(10, 3);
    assert_eq!(ranges, vec![(0, 4), (4, 8), (8, 10)]);
}

fn demo_scene() -> HittableList {
    let mut world = HittableList::from(Vec::new());
    let ground = world.add_material(Lambertian::from(Vec3::from(
        SCALE / 2,
        SCALE / 2,
        SCALE / 2,
    )));
    let center = world.add_material(Lambertian::from(Vec3::from(
        700_000_000,
        300_000_000,
        300_000_000,
    )));
    world.add(Hittable::Sphere(Sphere::from(
        Vec3::from(0, -100 * SCALE, -SCALE),
        100 * SCALE - SCALE / 2,
        ground,
    )));
    world.add(Hittable::Sphere(Sphere::from(Vec3::from(0, 0, -SCALE), SCALE / 2, center)));
    world
}

fn demo_camera() -> Camera {
    Camera::new(
        Vec3::from(0, 0, SCALE),
        Vec3::from(0, 0, -SCALE),
        Vec3::from(0, SCALE, 0),
        60 * SCALE,
        2 * SCALE,
        0,
        2 * SCALE,
    )
}

#[test]
fn ray_color_returns_background_for_empty_scene() {
    let world = HittableList::from(Vec::new());
    let r = ray_tracer::ray::Ray::from(Vec3::from(0, 0, 0), Vec3::from(0, SCALE, 0));
    let mut rng = Rng::from_seed(0);
    let c = ray_color(&r, &world, 10, &mut rng);
    // Straight up: the gradient parameter is 1, giving pure sky blue.
    assert_eq!((c.x, c.y, c.z), (SCALE / 2, 700_000_000, SCALE));
}

#[test]
fn ray_color_black_when_depth_exhausted() {
    let world = demo_scene();
    assert!(world.wf_check());
    let r = ray_tracer::ray::Ray::from(Vec3::from(0, 0, 0), Vec3::from(0, 0, -SCALE));
    let mut rng = Rng::from_seed(0);
    let c = ray_color(&r, &world, 0, &mut rng);
    assert_eq!((c.x, c.y, c.z), (0, 0, 0));
}

#[test]
fn render_buffer_has_three_bytes_per_pixel() {
    let world = demo_scene();
    assert!(world.wf_check());
    let camera = demo_camera();
    let image = render(&world, &camera, 8, 6, 2, 3, 3, 99);
    assert_eq!(image.len(), 8 * 6 * 3);
}

#[test]
fn render_same_seed_reproduces_bytes() {
    // A Lambertian sphere over a ground sphere at 20x10, 4 samples,
    // depth 4: repeated renders from one seed stream agree byte for
    // byte.
    let world = demo_scene();
    assert!(world.wf_check());
    let camera = demo_camera();
    let first = render(&world, &camera, 20, 10, 4, 4, 4, 7);
    let second = render(&world, &camera, 20, 10, 4, 4, 4, 7);
    assert_eq!(first, second);
    assert_eq!(first.len(), 20 * 10 * 3);
    // A different seed gives a different image.
    let third = render(&world, &camera, 20, 10, 4, 4, 4, 8);
    assert_ne!(first, third);
}

#[test]
fn render_matches_manual_worker_assembly() {
    // Rendering each worker's row range independently and joining the
    // chunks in worker order (highest first, as the threaded driver
    // does) reproduces the assembled image exactly.
    let world = demo_scene();
    assert!(world.wf_check());
    let camera = demo_camera();
    let workers = 3usize;
    let (width, height, samples, depth, seed) = (12usize, 9usize, 2, 3, 1234u64);
    let whole = render(&world, &camera, width, height, samples, depth, workers, seed);

    let ranges = row_ranges(height, workers);
    let mut assembled = Vec::new();
    for w in (0..workers).rev() {
        let (start, end) = ranges[w];
        let chunk = render_rows(
            &world,
            &camera,
            width,
            height,
            samples,
            depth,
            start,
            end,
            worker_seed(seed, w as u64),
        );
        assembled.extend(chunk);
    }
    assert_eq!(whole, assembled);
}

#[test]
fn render_image_is_not_all_background() {
    // The sphere must darken some pixels relative to the sky.
    let world = demo_scene();
    assert!(world.wf_check());
    let camera = demo_camera();
    let image = render(&world, &camera, 16, 8, 2, 4, 2, 5);
    let top = &image[0..3];
    let middle_px = (4 * 16 + 8) * 3;
    let middle = &image[middle_px..middle_px + 3];
    assert_ne!(top, middle);
}
