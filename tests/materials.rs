use std::rc::Rc;
use rand::rngs::StdRng;
use rand::SeedableRng;
use raytracing_in_a_weekend_rust::dielectric::Dielectric;
use raytracing_in_a_weekend_rust::fixed::{LIMIT, ONE};
use raytracing_in_a_weekend_rust::hit_record::{face_normal, HitRecord};
use raytracing_in_a_weekend_rust::lambertian::Lambertian;
use raytracing_in_a_weekend_rust::material::{AnyMaterial, Material};
use raytracing_in_a_weekend_rust::metal::Metal;
use raytracing_in_a_weekend_rust::ray::Ray;
use raytracing_in_a_weekend_rust::vector::{Color, Vec3};

fn v(x: i64, y: i64, z: i64) -> Vec3 {
    Vec3::new(x, y, z)
}

fn record(p: Vec3, normal: Vec3, front_face: bool, material: AnyMaterial) -> HitRecord {
    HitRecord { p, normal, material: Rc::new(material), t: ONE, front_face }
}

fn in_range(c: Vec3) -> bool {
    [c.x(), c.y(), c.z()].iter().all(|x| -LIMIT <= *x && *x <= LIMIT)
}

fn blank() -> (Color, Ray) {
    (v(0, 0, 0), Ray::new(v(0, 0, 0), v(0, 0, 0)))
}

#[test]
fn lambertian_scatters_around_the_normal() {
    let mut rng = StdRng::seed_from_u64(3);
    let m = Lambertian::new(v(ONE / 2, ONE / 4, ONE));
    let rec = record(v(0, ONE, 0), v(0, ONE, 0), true, AnyMaterial::Lambertian(Lambertian::new(v(0, 0, 0))));
    let r_in = Ray::new(v(0, 3 * ONE, 0), v(0, -ONE, 0));
    for _ in 0..200 {
        let (mut att, mut out) = blank();
        assert!(m.scatter(&r_in, &rec, &mut rng, &mut att, &mut out));
        assert_eq!(att, v(ONE / 2, ONE / 4, ONE));
        assert_eq!(out.origin(), v(0, ONE, 0));
        assert!(in_range(out.direction()));
        assert!(!out.direction().near_zero());
        assert!(out.direction().y() >= 0);
    }
}

#[test]
fn metal_without_fuzz_mirrors() {
    let mut rng = StdRng::seed_from_u64(5);
    let m = Metal::new(v(800_000, 600_000, 200_000), 0);
    let rec = record(v(0, 0, 0), v(0, ONE, 0), true, AnyMaterial::Metal(Metal::new(v(0, 0, 0), 0)));
    let (mut att, mut out) = blank();
    assert!(m.scatter(&Ray::new(v(-ONE, ONE, 0), v(ONE, -ONE, 0)), &rec, &mut rng, &mut att, &mut out));
    assert_eq!(out.direction(), v(707_107, 707_107, 0));
    assert_eq!(att, v(800_000, 600_000, 200_000));
}

#[test]
fn metal_absorbs_a_grazing_reflection() {
    let mut rng = StdRng::seed_from_u64(5);
    let m = Metal::new(v(ONE, ONE, ONE), 0);
    let rec = record(v(0, 0, 0), v(0, ONE, 0), true, AnyMaterial::Metal(Metal::new(v(0, 0, 0), 0)));
    let (mut att, mut out) = blank();
    assert!(!m.scatter(&Ray::new(v(-ONE, 0, 0), v(ONE, 0, 0)), &rec, &mut rng, &mut att, &mut out));
}

#[test]
fn metal_with_fuzz_stays_in_range() {
    let mut rng = StdRng::seed_from_u64(11);
    let m = Metal::new(v(ONE, ONE, ONE), ONE);
    let rec = record(v(0, 0, 0), v(0, ONE, 0), true, AnyMaterial::Metal(Metal::new(v(0, 0, 0), 0)));
    for _ in 0..200 {
        let (mut att, mut out) = blank();
        let kept = m.scatter(&Ray::new(v(-ONE, ONE, 0), v(ONE, -ONE, 0)), &rec, &mut rng, &mut att, &mut out);
        assert!(in_range(out.direction()));
        assert_eq!(kept, out.direction().y() > 0);
    }
}

#[test]
fn dielectric_reflects_totally_inside() {
    let mut rng = StdRng::seed_from_u64(1);
    let m = Dielectric::new(1_500_000);
    let rec = record(v(0, 0, 0), v(0, -ONE, 0), false, AnyMaterial::Dielectric(Dielectric::new(1_500_000)));
    let (mut att, mut out) = blank();
    assert!(m.scatter(&Ray::new(v(0, 0, 0), v(800_000, 600_000, 0)), &rec, &mut rng, &mut att, &mut out));
    assert_eq!(att, v(ONE, ONE, ONE));
    assert_eq!(out.direction(), v(800_000, -600_000, 0));
}

#[test]
fn dielectric_passes_or_reflects_head_on() {
    let mut rng = StdRng::seed_from_u64(2);
    let m = Dielectric::new(1_500_000);
    let rec = record(v(0, 0, 0), v(0, 0, ONE), true, AnyMaterial::Dielectric(Dielectric::new(1_500_000)));
    let mut through = 0;
    for _ in 0..200 {
        let (mut att, mut out) = blank();
        assert!(m.scatter(&Ray::new(v(0, 0, ONE), v(0, 0, -ONE)), &rec, &mut rng, &mut att, &mut out));
        assert_eq!(att, v(ONE, ONE, ONE));
        let d = out.direction();
        assert!(d == v(0, 0, -ONE) || d == v(0, 0, ONE));
        if d == v(0, 0, -ONE) {
            through += 1;
        }
    }
    assert!(through > 150);
}

#[test]
fn dispatch_through_the_trait() {
    let mut rng = StdRng::seed_from_u64(4);
    let any = AnyMaterial::Dielectric(Dielectric::new(1_500_000));
    let rec = record(v(0, 0, 0), v(0, -ONE, 0), false, AnyMaterial::Dielectric(Dielectric::new(1_500_000)));
    let (mut att, mut out) = blank();
    assert!(any.scatter(&Ray::new(v(0, 0, 0), v(800_000, 600_000, 0)), &rec, &mut rng, &mut att, &mut out));
    assert_eq!(out.origin(), v(0, 0, 0));
}

#[test]
fn attenuation_never_brightens() {
    let albedo = v(ONE / 2, ONE / 4, ONE);
    let c = v(800_000, 800_000, 800_000);
    let out = c.mul(albedo);
    assert_eq!(out, v(400_000, 200_000, 800_000));
    assert!(out.x() <= c.x() && out.y() <= c.y() && out.z() <= c.z());
}

#[test]
fn face_normal_turns_against_the_ray() {
    let r = Ray::new(v(0, 0, 0), v(0, 0, -ONE));
    assert_eq!(face_normal(&r, &v(0, 0, ONE)), (true, v(0, 0, ONE)));
    assert_eq!(face_normal(&r, &v(0, 0, -ONE)), (false, v(0, 0, ONE)));
}

#[test]
fn hit_record_getters() {
    let rec = record(v(ONE, 0, 0), v(0, ONE, 0), true, AnyMaterial::Lambertian(Lambertian::new(v(0, 0, 0))));
    assert_eq!(*rec.p(), v(ONE, 0, 0));
    assert_eq!(rec.t(), ONE);
    assert!(rec.front_face());
    assert!(matches!(**rec.material(), AnyMaterial::Lambertian(_)));
}
