use std::rc::Rc;
use raytracing_in_a_weekend_rust::fixed::{LIMIT, ONE};
use raytracing_in_a_weekend_rust::hittable_list::HittableList;
use raytracing_in_a_weekend_rust::interval::Interval;
use raytracing_in_a_weekend_rust::lambertian::Lambertian;
use raytracing_in_a_weekend_rust::material::AnyMaterial;
use raytracing_in_a_weekend_rust::ray::Ray;
use raytracing_in_a_weekend_rust::sphere::{add_sphere, Sphere, SphereSpec};
use raytracing_in_a_weekend_rust::vector::Vec3;

fn v(x: i64, y: i64, z: i64) -> Vec3 {
    Vec3::new(x, y, z)
}

fn gray() -> Rc<AnyMaterial> {
    Rc::new(AnyMaterial::Lambertian(Lambertian::new(v(ONE / 2, ONE / 2, ONE / 2))))
}

#[test]
fn ray_at_moves_along_the_direction() {
    let r = Ray::new(v(ONE, 0, 0), v(0, 2 * ONE, 0));
    assert_eq!(r.at(3 * ONE / 2), v(ONE, 3 * ONE, 0));
    assert_eq!(r.origin(), v(ONE, 0, 0));
    assert_eq!(r.direction(), v(0, 2 * ONE, 0));
}

#[test]
fn sky_gradient() {
    assert_eq!(Ray::new(v(0, 0, 0), v(0, ONE, 0)).color(), v(ONE / 2, 700_000, ONE));
    assert_eq!(Ray::new(v(0, 0, 0), v(0, -ONE, 0)).color(), v(ONE, ONE, ONE));
    assert_eq!(Ray::new(v(0, 0, 0), v(ONE, 0, 0)).color(), v(750_000, 850_000, ONE));
}

#[test]
fn sphere_hit_head_on() {
    let s = Sphere::new(v(0, 0, -5 * ONE), ONE, gray());
    let rec = s.hit(&Ray::new(v(0, 0, 0), v(0, 0, -ONE)), &Interval::new(1_000, LIMIT)).unwrap();
    assert_eq!(rec.t(), 4 * ONE);
    assert!(rec.front_face());
    assert_eq!(*rec.p(), v(0, 0, -4 * ONE));
    assert_eq!(*rec.normal(), v(0, 0, ONE));
}

#[test]
fn sphere_missed_when_aimed_away() {
    let s = Sphere::new(v(0, 0, -5 * ONE), ONE, gray());
    assert!(s.hit(&Ray::new(v(0, 0, 0), v(0, 0, ONE)), &Interval::new(1_000, LIMIT)).is_none());
}

#[test]
fn sphere_hit_from_inside_is_back_face() {
    let s = Sphere::new(v(0, 0, 0), 2 * ONE, gray());
    let rec = s.hit(&Ray::new(v(0, 0, 0), v(ONE, 0, 0)), &Interval::new(1_000, LIMIT)).unwrap();
    assert_eq!(rec.t(), 2 * ONE);
    assert!(!rec.front_face());
    assert_eq!(*rec.normal(), v(-ONE, 0, 0));
}

#[test]
fn sphere_hit_outside_interval_is_missed() {
    let s = Sphere::new(v(0, 0, -5 * ONE), ONE, gray());
    assert!(s.hit(&Ray::new(v(0, 0, 0), v(0, 0, -ONE)), &Interval::new(1_000, 3 * ONE)).is_none());
}

#[test]
fn list_returns_nearest_hit() {
    let mut world = HittableList::default();
    world.add(Sphere::new(v(0, 0, -10 * ONE), ONE, gray()));
    world.add(Sphere::new(v(0, 0, -4 * ONE), ONE, gray()));
    world.add(Sphere::new(v(0, 0, -7 * ONE), ONE, gray()));
    let rec = world.hit(&Ray::new(v(0, 0, 0), v(0, 0, -ONE)), &Interval::new(1_000, LIMIT)).unwrap();
    assert_eq!(rec.t(), 3 * ONE);
    assert!(world.hit(&Ray::new(v(0, 0, 0), v(0, ONE, 0)), &Interval::new(1_000, LIMIT)).is_none());
}

#[test]
fn empty_list_hits_nothing() {
    let world = HittableList::new(Vec::new());
    assert!(world.hit(&Ray::new(v(0, 0, 0), v(0, 0, -ONE)), &Interval::universe()).is_none());
}

#[test]
fn add_sphere_appends() {
    let mut world = HittableList::default();
    let spec = SphereSpec { center: v(ONE, 2 * ONE, 3 * ONE), radius: ONE / 2, material: gray() };
    add_sphere(&mut world, &spec);
    assert_eq!(world.objects.len(), 1);
    assert_eq!(world.objects[0].center, v(ONE, 2 * ONE, 3 * ONE));
    assert_eq!(world.objects[0].radius, ONE / 2);
}

#[test]
fn interval_membership() {
    let i = Interval::new(ONE, 2 * ONE);
    assert!(i.contains(ONE));
    assert!(!i.surrounds(ONE));
    assert!(i.surrounds(3 * ONE / 2));
    assert!(!i.contains(3 * ONE));
    assert_eq!(i.size(), ONE);
    assert_eq!((i.min(), i.max()), (ONE, 2 * ONE));
    assert!(!Interval::empty().contains(0));
    assert!(Interval::universe().contains(-5 * ONE));
}

#[test]
fn clamp_is_idempotent() {
    let i = Interval::new(0, 999_000);
    for x in [-5 * ONE, -1, 0, 500_000, 999_000, ONE, 7 * ONE] {
        assert_eq!(i.clamp(i.clamp(x)), i.clamp(x));
    }
    assert_eq!(i.clamp(500_000), 500_000);
    assert_eq!(i.clamp(2 * ONE), 999_000);
    assert_eq!(i.clamp(-ONE), 0);
}
