use ray_tracer::fixed::SCALE;
use ray_tracer::hittable::Hittable;
use ray_tracer::hittable_list::HittableList;
use ray_tracer::material::Lambertian;
use ray_tracer::ray::Ray;
use ray_tracer::sphere::Sphere;
use ray_tracer::vec3::Vec3;

const T_MIN: i64 = 1_000_000; // 0.001
const T_MAX: i64 = i64::MAX;

#[test]
fn ray_at_walks_the_parametrization() {
    let r = Ray::from(Vec3::from(SCALE, 0, 0), Vec3::from(0, 2 * SCALE, 0));
    let p = r.at(3 * SCALE);
    assert_eq!(p.x, SCALE);
    assert_eq!(p.y, 6 * SCALE);
    assert_eq!(p.z, 0);
}

#[test]
fn sphere_intersection_head_on() {
    // A ray from (0,0,-5) toward +z against the unit sphere at the origin:
    // t = 4, hit point (0,0,-1), normal (0,0,-1), front face.
    let sphere = Sphere::from(Vec3::from(0, 0, 0), SCALE, 0);
    let r = Ray::from(Vec3::from(0, 0, -5 * SCALE), Vec3::from(0, 0, SCALE));
    let rec = sphere.hit(&r, T_MIN, T_MAX).expect("must hit");
    assert_eq!(rec.t, 4 * SCALE);
    assert_eq!((rec.p.x, rec.p.y, rec.p.z), (0, 0, -SCALE));
    assert_eq!((rec.normal.x, rec.normal.y, rec.normal.z), (0, 0, -SCALE));
    assert!(rec.front_face);
}

#[test]
fn sphere_miss_off_axis() {
    // The same direction, sphere centered at (10,0,0) radius 1: no hit.
    let sphere = Sphere::from(Vec3::from(10 * SCALE, 0, 0), SCALE, 0);
    let r = Ray::from(Vec3::from(0, 0, -5 * SCALE), Vec3::from(0, 0, SCALE));
    assert!(sphere.hit(&r, T_MIN, T_MAX).is_none());
}

#[test]
fn ray_inside_sphere_takes_far_root() {
    // From the center of the unit sphere the near root (-1) is out of
    // range, so the far root (+1) is accepted; the struck side is the
    // back face and the stored normal points inward.
    let sphere = Sphere::from(Vec3::from(0, 0, 0), SCALE, 0);
    let r = Ray::from(Vec3::from(0, 0, 0), Vec3::from(0, 0, SCALE));
    let rec = sphere.hit(&r, T_MIN, T_MAX).expect("must hit");
    assert_eq!(rec.t, SCALE);
    assert!(!rec.front_face);
    assert_eq!((rec.normal.x, rec.normal.y, rec.normal.z), (0, 0, -SCALE));
}

#[test]
fn sphere_respects_t_range() {
    let sphere = Sphere::from(Vec3::from(0, 0, 0), SCALE, 0);
    let r = Ray::from(Vec3::from(0, 0, -5 * SCALE), Vec3::from(0, 0, SCALE));
    // Both roots (4 and 6) lie beyond t_max = 2: no hit.
    assert!(sphere.hit(&r, T_MIN, 2 * SCALE).is_none());
    // Only the far root (6) lies within [5, 10].
    let rec = sphere.hit(&r, 5 * SCALE, 10 * SCALE).expect("must hit");
    assert_eq!(rec.t, 6 * SCALE);
    assert!(!rec.front_face);
}

#[test]
fn scene_resolves_closest_hit() {
    let mut world = HittableList::from(Vec::new());
    let mat = world.add_material(Lambertian::from(Vec3::from(SCALE / 2, SCALE / 2, SCALE / 2)));
    world.add(Hittable::Sphere(Sphere::from(Vec3::from(0, 0, 2 * SCALE), SCALE, mat)));
    world.add(Hittable::Sphere(Sphere::from(Vec3::from(0, 0, 6 * SCALE), SCALE, mat)));
    let r = Ray::from(Vec3::from(0, 0, -SCALE), Vec3::from(0, 0, SCALE));
    let rec = world.hit(&r, T_MIN, T_MAX).expect("must hit");
    // The nearer sphere's front surface is at z = 1, two units from the
    // ray origin.
    assert_eq!(rec.t, 2 * SCALE);
    assert_eq!(rec.p.z, SCALE);
}

#[test]
fn scene_empty_reports_no_hit() {
    let world = HittableList::from(Vec::new());
    let r = Ray::from(Vec3::from(0, 0, 0), Vec3::from(0, 0, SCALE));
    assert!(world.hit(&r, T_MIN, T_MAX).is_none());
}

#[test]
fn wf_check_validates_material_indices() {
    let mut world = HittableList::from(Vec::new());
    world.add(Hittable::Sphere(Sphere::from(Vec3::from(0, 0, 0), SCALE, 0)));
    // Index 0 with an empty arena: not well formed.
    assert!(!world.wf_check());
    world.add_material(Lambertian::from(Vec3::from(SCALE, SCALE, SCALE)));
    assert!(world.wf_check());
}
