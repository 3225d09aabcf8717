use ray_tracer::fixed::SCALE;
use ray_tracer::hittable::HitRecord;
use ray_tracer::material::{Dielectric, Lambertian, Material, Metal};
use ray_tracer::ray::Ray;
use ray_tracer::rng::Rng;
use ray_tracer::vec3::{dot, reflect, unit_vector, Vec3};

fn record(normal: Vec3, front_face: bool) -> HitRecord {
    HitRecord { p: Vec3::from(0, 0, 0), normal, mat: 0, t: SCALE, front_face }
}

#[test]
fn lambertian_clamps_nothing_and_keeps_albedo() {
    let albedo = Vec3::from(SCALE / 2, SCALE / 4, SCALE / 8);
    let m = Lambertian::from(albedo);
    match m {
        Material::Lambertian(l) => {
            assert_eq!(l.albedo.x, SCALE / 2);
            assert_eq!(l.albedo.y, SCALE / 4);
            assert_eq!(l.albedo.z, SCALE / 8);
        }
        _ => panic!("wrong variant"),
    }
}

#[test]
fn metal_fuzz_is_clamped_to_one() {
    match Metal::from(Vec3::from(SCALE, SCALE, SCALE), 3 * SCALE) {
        Material::Metal(m) => assert_eq!(m.fuzz, SCALE),
        _ => panic!("wrong variant"),
    }
    match Metal::from(Vec3::from(SCALE, SCALE, SCALE), SCALE / 2) {
        Material::Metal(m) => assert_eq!(m.fuzz, SCALE / 2),
        _ => panic!("wrong variant"),
    }
}

#[test]
fn lambertian_never_absorbs() {
    let m = Lambertian::from(Vec3::from(SCALE / 2, SCALE / 2, SCALE / 2));
    let r_in = Ray::from(Vec3::from(0, 0, -SCALE), Vec3::from(0, 0, SCALE));
    let rec = record(Vec3::from(0, 0, -SCALE), true);
    for seed in 0..64u64 {
        let mut rng = Rng::from_seed(seed);
        let out = m.scatter(&r_in, &rec, &mut rng);
        assert!(out.is_some());
        let (_, attenuation) = out.unwrap();
        assert_eq!(attenuation.x, SCALE / 2);
    }
}

#[test]
fn metal_reflects_head_on() {
    // Fuzz zero: the scattered ray is the mirror reflection and points
    // out of the surface.
    let m = Metal::from(Vec3::from(SCALE, SCALE, SCALE), 0);
    let r_in = Ray::from(Vec3::from(0, SCALE, 0), Vec3::from(0, -SCALE, 0));
    let rec = record(Vec3::from(0, SCALE, 0), true);
    let mut rng = Rng::from_seed(5);
    let (scattered, _) = m.scatter(&r_in, &rec, &mut rng).expect("must scatter");
    assert_eq!((scattered.direction.x, scattered.direction.y, scattered.direction.z), (0, SCALE, 0));
}

#[test]
fn metal_absorbs_grazing_ray() {
    // Fuzz zero and an incoming ray parallel to the surface: the
    // reflected direction has dot product zero with the normal, which is
    // not positive, so the ray is absorbed.
    let m = Metal::from(Vec3::from(SCALE, SCALE, SCALE), 0);
    let r_in = Ray::from(Vec3::from(-SCALE, 0, 0), Vec3::from(SCALE, 0, 0));
    let rec = record(Vec3::from(0, SCALE, 0), true);
    let mut rng = Rng::from_seed(5);
    assert!(m.scatter(&r_in, &rec, &mut rng).is_none());
}

#[test]
fn metal_absorption_matches_direction_sign() {
    // Across many seeds, absorption happens exactly when the perturbed
    // direction fails to point out of the surface.  A ray leaving the
    // surface reflects to a direction pointing into it, so a fuzz of one
    // sometimes rescues it and sometimes does not.
    let m = Metal::from(Vec3::from(SCALE, SCALE, SCALE), SCALE);
    let normal = Vec3::from(0, SCALE, 0);
    let r_in = Ray::from(Vec3::from(0, 0, 0), Vec3::from(SCALE, SCALE, 0));
    let rec = record(normal, true);
    let mut absorbed = 0;
    let mut scattered_count = 0;
    for seed in 0..256u64 {
        let mut rng = Rng::from_seed(seed);
        for _ in 0..8 {
            rng.next_unit();
        }
        match m.scatter(&r_in, &rec, &mut rng) {
            Some((scattered, _)) => {
                assert!(dot(&scattered.direction, &normal) > 0);
                scattered_count += 1;
            }
            None => absorbed += 1,
        }
    }
    // A fuzz of one on a 45-degree reflection produces both outcomes.
    assert!(absorbed > 0, "no absorption over 256 seeds");
    assert!(scattered_count > 0, "no scattering over 256 seeds");
}

#[test]
fn dielectric_always_scatters_white() {
    let m = Dielectric::from(1_500_000_000);
    let r_in = Ray::from(Vec3::from(0, SCALE, 0), Vec3::from(0, -SCALE, 0));
    let rec = record(Vec3::from(0, SCALE, 0), true);
    for seed in 0..64u64 {
        let mut rng = Rng::from_seed(seed);
        let (_, attenuation) = m.scatter(&r_in, &rec, &mut rng).expect("never absorbs");
        assert_eq!((attenuation.x, attenuation.y, attenuation.z), (SCALE, SCALE, SCALE));
    }
}

#[test]
fn dielectric_total_internal_reflection_reflects() {
    // Leaving glass (back face, ratio 1.5) at a grazing angle:
    // sin_theta is about 0.995, so ratio * sin_theta > 1 and the ray
    // must reflect, whatever the seed; no random draw is consumed.
    let m = Dielectric::from(1_500_000_000);
    let direction = Vec3::from(SCALE, -SCALE / 10, 0);
    let normal = Vec3::from(0, SCALE, 0);
    let r_in = Ray::from(Vec3::from(0, 0, 0), direction);
    let rec = record(normal, false);
    let expected = reflect(&unit_vector(&direction), &normal);
    for seed in 0..64u64 {
        let mut rng = Rng::from_seed(seed);
        let state_before = rng.state;
        let (scattered, _) = m.scatter(&r_in, &rec, &mut rng).expect("never absorbs");
        assert_eq!(scattered.direction.x, expected.x);
        assert_eq!(scattered.direction.y, expected.y);
        assert_eq!(scattered.direction.z, expected.z);
        assert_eq!(rng.state, state_before);
    }
}

#[test]
fn dielectric_refracts_head_on() {
    // Straight into the surface (cos_theta = 1): reflectance is the
    // small r0 and most draws refract; the refracted direction of a
    // head-on ray continues straight.
    let m = Dielectric::from(1_500_000_000);
    let r_in = Ray::from(Vec3::from(0, SCALE, 0), Vec3::from(0, -SCALE, 0));
    let rec = record(Vec3::from(0, SCALE, 0), true);
    let mut refracted = 0;
    for seed in 0..64u64 {
        let mut rng = Rng::from_seed(seed);
        for _ in 0..8 {
            rng.next_unit();
        }
        let (scattered, _) = m.scatter(&r_in, &rec, &mut rng).expect("never absorbs");
        if scattered.direction.y < 0 {
            refracted += 1;
        }
    }
    assert!(refracted > 32, "head-on rays should mostly refract");
}
