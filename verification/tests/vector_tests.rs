use ray_tracer::fixed::{fadd, fdiv, fmin, fmul, fsqrt, SCALE};
use ray_tracer::rng::Rng;
use ray_tracer::vec3::{
    cross, dot, random_in_unit_disk, random_in_unit_sphere, random_unit_vector, reflect, refract,
    unit_vector, Vec3,
};

#[test]
fn fixed_basic_arithmetic() {
    // 1.5 * 2.0 == 3.0, exactly.
    assert_eq!(fmul(1_500_000_000, 2 * SCALE), 3 * SCALE);
    // 1.0 / 4.0 == 0.25.
    assert_eq!(fdiv(SCALE, 4 * SCALE), 250_000_000);
    // Truncation toward zero: 1 / 3 has a nine-digit expansion.
    assert_eq!(fdiv(SCALE, 3 * SCALE), 333_333_333);
    assert_eq!(fadd(SCALE, -3 * SCALE), -2 * SCALE);
    assert_eq!(fmin(5, -7), -7);
}

#[test]
fn fixed_saturates_instead_of_overflowing() {
    assert_eq!(fadd(i64::MAX, i64::MAX), i64::MAX);
    assert_eq!(fmul(i64::MAX, i64::MAX), i64::MAX);
    assert_eq!(fmul(i64::MAX, -i64::MAX), i64::MIN);
}

#[test]
fn fixed_division_by_zero_saturates_by_sign() {
    assert_eq!(fdiv(SCALE, 0), i64::MAX);
    assert_eq!(fdiv(-SCALE, 0), i64::MIN);
    assert_eq!(fdiv(0, 0), 0);
}

#[test]
fn fixed_sqrt_exact_and_truncated() {
    assert_eq!(fsqrt(4 * SCALE), 2 * SCALE);
    assert_eq!(fsqrt(SCALE), SCALE);
    assert_eq!(fsqrt(0), 0);
    assert_eq!(fsqrt(-SCALE), 0);
    // sqrt(2) truncated at nine digits.
    assert_eq!(fsqrt(2 * SCALE), 1_414_213_562);
}

#[test]
fn dot_and_cross_products() {
    let a = Vec3::from(SCALE, 2 * SCALE, 3 * SCALE);
    let b = Vec3::from(4 * SCALE, -5 * SCALE, 6 * SCALE);
    assert_eq!(dot(&a, &b), (4 - 10 + 18) * SCALE);
    let c = cross(&a, &b);
    assert_eq!(c.x, 27 * SCALE);
    assert_eq!(c.y, 6 * SCALE);
    assert_eq!(c.z, -13 * SCALE);
}

#[test]
fn length_of_pythagorean_vector() {
    let v = Vec3::from(3 * SCALE, 4 * SCALE, 0);
    assert_eq!(v.length_squared(), 25 * SCALE);
    assert_eq!(v.length(), 5 * SCALE);
    let u = unit_vector(&v);
    assert_eq!(u.x, 600_000_000);
    assert_eq!(u.y, 800_000_000);
    assert_eq!(u.z, 0);
}

#[test]
fn reflect_law() {
    // reflect((1,-1,0), (0,1,0)) == (1,1,0)
    let v = Vec3::from(SCALE, -SCALE, 0);
    let n = Vec3::from(0, SCALE, 0);
    let r = reflect(&v, &n);
    assert_eq!(r.x, SCALE);
    assert_eq!(r.y, SCALE);
    assert_eq!(r.z, 0);
}

#[test]
fn refract_head_on_continues_straight() {
    // Entering head on, the perpendicular component vanishes and the
    // refracted ray continues along the incoming direction, for any
    // refraction ratio.
    let uv = Vec3::from(0, -SCALE, 0);
    let n = Vec3::from(0, SCALE, 0);
    for eta in [SCALE / 2, 666_666_666, SCALE, 2 * SCALE] {
        let r = refract(&uv, &n, eta);
        assert_eq!((r.x, r.y, r.z), (0, -SCALE, 0));
    }
}

#[test]
fn near_zero_threshold() {
    // All components below 1e-8 (ten units): degenerate.
    assert!(Vec3::from(9, 9, 9).near_zero());
    assert!(Vec3::from(-9, 0, 9).near_zero());
    // Any component at or above 1e-8: not degenerate.
    assert!(!Vec3::from(10, 0, 0).near_zero());
    assert!(!Vec3::from(0, -10, 0).near_zero());
    assert!(!Vec3::from(9, 9, SCALE).near_zero());
}

#[test]
fn rng_is_deterministic_per_seed() {
    let mut a = Rng::from_seed(42);
    let mut b = Rng::from_seed(42);
    for _ in 0..100 {
        assert_eq!(a.next_unit(), b.next_unit());
    }
    let mut c = Rng::from_seed(43);
    let mut d = Rng::from_seed(42);
    let mut differs = false;
    for _ in 0..100 {
        if c.next_unit() != d.next_unit() {
            differs = true;
        }
    }
    assert!(differs);
}

#[test]
fn rng_draws_lie_in_unit_range() {
    let mut rng = Rng::from_seed(7);
    for _ in 0..1000 {
        let u = rng.next_unit();
        assert!(0 <= u && u < SCALE);
    }
    let mut rng = Rng::from_seed(8);
    for _ in 0..1000 {
        let r = rng.next_range(-SCALE, SCALE);
        assert!(-SCALE <= r && r < SCALE);
    }
}

#[test]
fn unit_sphere_samples_stay_inside() {
    let mut rng = Rng::from_seed(1);
    for _ in 0..200 {
        let p = random_in_unit_sphere(&mut rng);
        assert!(p.length_squared() < SCALE);
    }
}

#[test]
fn unit_disk_samples_stay_inside_and_flat() {
    let mut rng = Rng::from_seed(2);
    for _ in 0..200 {
        let p = random_in_unit_disk(&mut rng);
        assert!(p.length_squared() < SCALE);
        assert_eq!(p.z, 0);
    }
}

#[test]
fn random_unit_vector_has_unit_length() {
    let mut rng = Rng::from_seed(3);
    for _ in 0..100 {
        let v = random_unit_vector(&mut rng);
        // Length 1 within fixed-point truncation error.
        let len = v.length();
        assert!((len - SCALE).abs() < 1_000, "length was {len}");
    }
}
