use std::rc::Rc;
use rand::rngs::StdRng;
use rand::SeedableRng;
use raytracing_in_a_weekend_rust::camera::{pixel_bytes, Camera, CameraBuilder};
use raytracing_in_a_weekend_rust::color::linear_to_gamma;
use raytracing_in_a_weekend_rust::fixed::ONE;
use raytracing_in_a_weekend_rust::hittable_list::HittableList;
use raytracing_in_a_weekend_rust::lambertian::Lambertian;
use raytracing_in_a_weekend_rust::material::AnyMaterial;
use raytracing_in_a_weekend_rust::random::{random_scalar, random_scalar_in_range};
use raytracing_in_a_weekend_rust::random_scene::random_scene;
use raytracing_in_a_weekend_rust::ray::Ray;
use raytracing_in_a_weekend_rust::sphere::Sphere;
use raytracing_in_a_weekend_rust::vector::{ball_candidate, Vec3};

fn v(x: i64, y: i64, z: i64) -> Vec3 {
    Vec3::new(x, y, z)
}

fn small_camera(max_depth: u32) -> Camera {
    CameraBuilder::default()
        .image_width(2)
        .aspect_ratio(ONE)
        .samples_per_pixel(1)
        .max_depth(max_depth)
        .look_from(v(0, 0, 0))
        .look_at(v(0, 0, -ONE))
        .focus_dist(ONE)
        .build()
}

fn one_sphere() -> HittableList {
    let gray = Rc::new(AnyMaterial::Lambertian(Lambertian::new(v(ONE / 2, ONE / 2, ONE / 2))));
    HittableList::new(vec![Sphere::new(v(0, 0, -ONE), ONE / 2, gray)])
}

fn brightness(p: (u8, u8, u8)) -> u32 {
    p.0 as u32 + p.1 as u32 + p.2 as u32
}

#[test]
fn sphere_pixels_darker_than_background() {
    let camera = small_camera(1);
    let lit = camera.render(&one_sphere(), &mut StdRng::seed_from_u64(42));
    let sky = camera.render(&HittableList::default(), &mut StdRng::seed_from_u64(42));
    assert_eq!(lit.len(), 4);
    assert_eq!(sky.len(), 4);
    for k in 0..4 {
        assert!(brightness(lit[k]) < brightness(sky[k]));
    }
    let again = camera.render(&one_sphere(), &mut StdRng::seed_from_u64(42));
    assert_eq!(lit, again);
}

#[test]
fn no_bounces_renders_black() {
    let camera = small_camera(0);
    let world = random_scene(&mut StdRng::seed_from_u64(9));
    let image = camera.render(&world, &mut StdRng::seed_from_u64(1));
    assert_eq!(image, vec![(0, 0, 0); 4]);
    let empty = camera.render(&HittableList::default(), &mut StdRng::seed_from_u64(1));
    assert_eq!(empty, vec![(0, 0, 0); 4]);
}

#[test]
fn ray_color_of_a_miss_is_sky() {
    let world = HittableList::default();
    let r = Ray::new(v(0, 0, 0), v(0, ONE, 0));
    let c = Camera::ray_color(&r, &world, 5, &mut StdRng::seed_from_u64(0));
    assert_eq!(c, v(ONE / 2, 700_000, ONE));
    assert_eq!(Camera::ray_color(&r, &world, 0, &mut StdRng::seed_from_u64(0)), v(0, 0, 0));
}

#[test]
fn encoding_white_and_black() {
    assert_eq!(v(ONE, ONE, ONE).to_bytes(), (255, 255, 255));
    assert_eq!(v(0, 0, 0).to_bytes(), (0, 0, 0));
    assert_eq!(v(-ONE, 4 * ONE, ONE / 4).to_bytes(), (0, 255, 127));
}

#[test]
fn gamma_two() {
    assert_eq!(linear_to_gamma(ONE / 4), ONE / 2);
    assert_eq!(linear_to_gamma(ONE), ONE);
    assert_eq!(linear_to_gamma(-ONE), 0);
    assert_eq!(linear_to_gamma(0), 0);
}

#[test]
fn camera_frame() {
    let c = small_camera(1);
    assert_eq!(c.image_height, 2);
    assert_eq!(c.center, v(0, 0, 0));
    assert_eq!(c.u, v(ONE, 0, 0));
    assert_eq!(c.v, v(0, ONE, 0));
    assert_eq!(c.lens_radius, 0);
    let wide = CameraBuilder::default().build();
    assert_eq!(wide.image_width, 400);
    assert_eq!(wide.image_height, 225);
}

#[test]
fn rays_leave_the_center_without_defocus() {
    let c = small_camera(1);
    let mut rng = StdRng::seed_from_u64(8);
    for j in 0..2 {
        for i in 0..2 {
            let r = c.get_ray(i, j, &mut rng);
            assert_eq!(r.origin(), v(0, 0, 0));
            assert_eq!(r.direction().z(), -ONE);
            let x = r.direction().x();
            let y = r.direction().y();
            let left = c.pixel00_loc.x() + i as i64 * c.pixel_delta_u.x();
            assert!(left <= x && x < left + c.pixel_delta_u.x());
            let top = c.pixel00_loc.y() + j as i64 * c.pixel_delta_v.y();
            assert!(top >= y && y > top + c.pixel_delta_v.y());
            if i == 1 {
                assert!(x > 0);
            }
            if j == 1 {
                assert!(y < 0);
            }
        }
    }
}

#[test]
fn lens_samples_lie_in_the_unit_disk() {
    let mut rng = StdRng::seed_from_u64(6);
    for _ in 0..200 {
        let p = Camera::random_in_unit_disk(&mut rng);
        assert_eq!(p.z(), 0);
        assert!(p.length_squared() < ONE);
        let q = Camera::sample_square(&mut rng);
        assert!(0 <= q.x() && q.x() < ONE && 0 <= q.y() && q.y() < ONE);
    }
}

#[test]
fn random_draws_cover_their_range() {
    let mut rng = StdRng::seed_from_u64(12);
    let mut seen = [false; 2];
    for _ in 0..100 {
        let x = random_scalar_in_range(&mut rng, 5, 7);
        assert!(x == 5 || x == 6);
        seen[(x - 5) as usize] = true;
        let y = random_scalar(&mut rng);
        assert!(0 <= y && y < ONE);
    }
    assert!(seen[0] && seen[1]);
}

#[test]
fn showcase_scene_layout() {
    let world = random_scene(&mut StdRng::seed_from_u64(21));
    let n = world.objects.len();
    assert!(n >= 4 && n <= 488);
    assert_eq!(world.objects[0].radius, 1000 * ONE);
    assert_eq!(world.objects[n - 3].center, v(0, ONE, 0));
    assert_eq!(world.objects[n - 2].center, v(-4 * ONE, ONE, 0));
    assert_eq!(world.objects[n - 1].center, v(4 * ONE, ONE, 0));
    for s in &world.objects[1..n - 3] {
        assert_eq!(s.radius, 200_000);
    }
}

#[test]
fn pixel_bytes_average_the_samples() {
    let samples = vec![v(ONE, 0, 0), v(0, 0, 0), v(ONE, ONE, 0), v(ONE, 0, 0)];
    // averages (0.75, 0.25, 0): gamma gives (0.866025, 0.5, 0)
    assert_eq!(pixel_bytes(&samples, 4), (221, 127, 0));
    assert_eq!(pixel_bytes(&vec![v(ONE, ONE, ONE)], 1), (255, 255, 255));
}

#[test]
fn rejection_tests() {
    assert_eq!(Camera::disk_candidate(ONE / 2, ONE / 2), Some(v(ONE / 2, ONE / 2, 0)));
    assert_eq!(Camera::disk_candidate(-ONE, 0), None);
    assert_eq!(ball_candidate(v(0, ONE / 2, 0)), Some(v(0, ONE / 2, 0)));
    assert_eq!(ball_candidate(v(0, 0, 0)), None);
    assert_eq!(ball_candidate(v(900_000, 900_000, 0)), None);
}

#[test]
fn showcase_scene_materials() {
    let world = random_scene(&mut StdRng::seed_from_u64(21));
    let n = world.objects.len();
    assert!(matches!(*world.objects[0].material, AnyMaterial::Lambertian(ref l) if l.albedo == v(ONE / 2, ONE / 2, ONE / 2)));
    assert!(matches!(*world.objects[n - 3].material, AnyMaterial::Dielectric(ref d) if d.refractive_index == 1_500_000));
    assert!(matches!(*world.objects[n - 1].material, AnyMaterial::Metal(ref m) if m.fuzz == 0));
    for s in &world.objects[1..n - 3] {
        assert!(s.center.sub(v(4 * ONE, 200_000, 0)).length() > 900_000);
    }
}
