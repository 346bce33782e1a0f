use yart_engine::common::{div_floor, fixed_mul, isqrt, pow_fixed, Real, SCALE};
use yart_engine::math::color3::Color3;
use yart_engine::math::vector3::{Vector3, Vector3T};

#[test]
fn fixed_mul_scales_products() {
    assert_eq!(fixed_mul(3 * SCALE, 4 * SCALE), 12 * SCALE);
    assert_eq!(fixed_mul(SCALE / 2, SCALE / 2), SCALE / 4);
    assert_eq!(fixed_mul(-3 * SCALE, 4 * SCALE), -12 * SCALE);
    assert_eq!(fixed_mul(0, 123456), 0);
}

#[test]
fn div_floor_rounds_toward_negative_infinity() {
    assert_eq!(div_floor(7, 2), 3);
    assert_eq!(div_floor(-7, 2), -4);
    assert_eq!(div_floor(-8, 2), -4);
    assert_eq!(div_floor(0, 5), 0);
}

#[test]
fn isqrt_is_the_floored_square_root() {
    assert_eq!(isqrt(0), 0);
    assert_eq!(isqrt(1), 1);
    assert_eq!(isqrt(10), 3);
    assert_eq!(isqrt(16), 4);
    assert_eq!(isqrt((SCALE * SCALE) as i128), SCALE);
}

#[test]
fn pow_fixed_repeats_the_product() {
    assert_eq!(pow_fixed(SCALE, 10), SCALE);
    assert_eq!(pow_fixed(SCALE / 2, 2), SCALE / 4);
    assert_eq!(pow_fixed(12345, 0), SCALE);
    assert_eq!(pow_fixed(0, 3), 0);
}

#[test]
fn vector_arithmetic_is_componentwise() {
    let a: Vector3 = Vector3T::new(SCALE, 2 * SCALE, -3 * SCALE);
    let b: Vector3 = Vector3T::new(4 * SCALE, -SCALE, SCALE);
    let sum = a.plus(&b);
    assert_eq!((sum.x, sum.y, sum.z), (5 * SCALE, SCALE, -2 * SCALE));
    let diff = a.minus(&b);
    assert_eq!((diff.x, diff.y, diff.z), (-3 * SCALE, 3 * SCALE, -4 * SCALE));
    let dot: Real = a.dot(&b);
    assert_eq!(dot, 4 * SCALE - 2 * SCALE - 3 * SCALE);
    let scaled = a.scaled(2 * SCALE);
    assert_eq!((scaled.x, scaled.y, scaled.z), (2 * SCALE, 4 * SCALE, -6 * SCALE));
}

#[test]
fn vector_length_of_three_four_five() {
    let v: Vector3 = Vector3T::new(3 * SCALE, 4 * SCALE, 0);
    assert_eq!(v.length(), 5 * SCALE);
}

#[test]
fn reciprocal_maps_zero_components_to_zero() {
    let v: Vector3 = Vector3T::new(2 * SCALE, 0, -4 * SCALE);
    let r = v.reciprocal();
    assert_eq!(r.x, SCALE / 2);
    assert_eq!(r.y, 0);
    assert_eq!(r.z, -SCALE / 4);
}

// A normalized vector has squared length within 16 raw units of one, even
// when its components do not divide evenly.
#[test]
fn normalize_returns_a_near_unit_vector() {
    let v: Vector3 = Vector3T::new(3 * SCALE, 4 * SCALE, 0);
    let n = v.normalize();
    assert_eq!((n.x, n.y, n.z), (3 * SCALE / 5, 4 * SCALE / 5, 0));
    let cases: Vec<Vector3> = vec![
        Vector3T::new(SCALE, SCALE, SCALE),
        Vector3T::new(7 * SCALE + 123, -2 * SCALE + 7, 5 * SCALE),
        Vector3T::new(-999999, 123456, 654321),
        Vector3T::new(100 * SCALE, SCALE, 3),
    ];
    for v in cases {
        let n = v.normalize();
        let sq: Real = n.dot(&n);
        assert!((sq - SCALE).abs() <= 16, "squared length {sq}");
    }
}

#[test]
fn color_arithmetic_is_channelwise() {
    let a = Color3::new(SCALE, 2 * SCALE, 3 * SCALE);
    let b = Color3::from_value(SCALE / 2);
    let sum = a.plus(&b);
    assert_eq!((sum.r, sum.g, sum.b), (3 * SCALE / 2, 5 * SCALE / 2, 7 * SCALE / 2));
    let filtered = a.modulate(&b);
    assert_eq!((filtered.r, filtered.g, filtered.b), (SCALE / 2, SCALE, 3 * SCALE / 2));
    let scaled = a.scaled(2 * SCALE);
    assert_eq!((scaled.r, scaled.g, scaled.b), (2 * SCALE, 4 * SCALE, 6 * SCALE));
}
