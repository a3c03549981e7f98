use raytracing_in_a_weekend_rust::fixed::ONE;
use raytracing_in_a_weekend_rust::vector::{cross, dot, reflect, unit_vector, Color, Vec3};

fn v(x: i64, y: i64, z: i64) -> Vec3 {
    Vec3::new(x, y, z)
}

#[test]
fn vectors() {
    let a = v(0, 3 * ONE, 0);
    let b = v(ONE, ONE, ONE);
    assert_eq!(a.add(b), v(ONE, 4 * ONE, ONE));
    assert_eq!(a.sub(b), v(-ONE, 2 * ONE, -ONE));
    assert_eq!(b.length_squared(), 3 * ONE);
    assert_eq!(dot(a, b), 3 * ONE);
    let c: Color = v(900_000, 100_000, 500_000);
    assert_eq!(c.to_bytes(), (242, 80, 181));
}

#[test]
fn dot_is_symmetric_and_cross_antisymmetric() {
    let a = v(ONE, 2 * ONE, 3 * ONE);
    let b = v(4 * ONE, 5 * ONE, 6 * ONE);
    assert_eq!(dot(a, b), 32 * ONE);
    assert_eq!(dot(a, b), dot(b, a));
    assert_eq!(cross(a, b), v(-3 * ONE, 6 * ONE, -3 * ONE));
    assert_eq!(cross(a, b), cross(b, a).neg());
    assert_eq!(a.length_squared(), dot(a, a));
}

#[test]
fn unit_vector_has_length_one() {
    let u = unit_vector(v(3 * ONE, 4 * ONE, 0));
    assert_eq!(u, v(600_000, 800_000, 0));
    assert_eq!(u.length(), ONE);
    let d = unit_vector(v(ONE, ONE, ONE));
    assert_eq!(d, v(577_350, 577_350, 577_350));
    assert!((d.length_squared() - ONE).abs() <= 10);
}

#[test]
fn unit_vector_keeps_the_zero_vector() {
    assert_eq!(unit_vector(v(0, 0, 0)), v(0, 0, 0));
}

#[test]
fn scalar_ops_and_saturation() {
    let big = v(10_000_000_000_000, 0, 0);
    assert_eq!(big.add(big).x(), 10_000_000_000_000);
    assert_eq!(v(2 * ONE, 0, 0).scale(ONE / 2), v(ONE, 0, 0));
    assert_eq!(v(ONE, 0, 0).div(4 * ONE), v(250_000, 0, 0));
    assert_eq!(v(ONE, -ONE, 0).div(0), v(10_000_000_000_000, -10_000_000_000_000, 0));
    assert_eq!(v(ONE, 2 * ONE, 3 * ONE).mul(v(2 * ONE, ONE / 2, -ONE)), v(2 * ONE, ONE, -3 * ONE));
    assert_eq!(v(3 * ONE, 4 * ONE, 0).length(), 5 * ONE);
}

#[test]
fn near_zero_only_for_zero() {
    assert!(v(0, 0, 0).near_zero());
    assert!(!v(1, 0, 0).near_zero());
}

#[test]
fn reflect_mirrors_about_the_normal() {
    let r = reflect(&v(ONE, -ONE, 0), &v(0, ONE, 0));
    assert_eq!(r, v(ONE, ONE, 0));
}

#[test]
fn unit_vector_of_short_vectors() {
    assert_eq!(unit_vector(v(1, 0, 0)), v(ONE, 0, 0));
    assert_eq!(unit_vector(v(1_500, 0, 0)), v(ONE, 0, 0));
    let d = unit_vector(v(1_000, 1_000, 0));
    assert_eq!(d, v(707_213, 707_213, 0));
    assert_eq!(d.length_squared(), 1_000_300);
}

#[test]
fn length_uses_the_exact_sum_of_squares() {
    assert_eq!(v(3, 4, 0).length(), 5);
    assert_eq!(v(1, 0, 0).length(), 1);
}
