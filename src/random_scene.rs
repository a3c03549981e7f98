//! The showcase scene: a wide ground sphere, a grid of small spheres of
//! random materials, and three large spheres of glass, diffuse and metal.
use vstd::prelude::*;
use std::rc::Rc;
use rand::rngs::StdRng;
use crate::dielectric::Dielectric;
use crate::fixed::{add_fx, mul_fx, ONE, SCALE};
use crate::hittable_list::HittableList;
use crate::lambertian::Lambertian;
use crate::material::AnyMaterial;
use crate::metal::Metal;
use crate::random::random_scalar;
use crate::sphere::{add_sphere, Sphere, SphereSpec};
use crate::vector::{random, random_in_range, Vec3};

verus! {

/// Radius of each small sphere: 0.2.
pub const SMALL_RADIUS: i64 = 200_000;

/// Refractive index of the glass spheres: 1.5.
pub const GLASS_INDEX: i64 = 1_500_000;

/// The point the small spheres keep clear of: under the metal sphere.
pub open spec fn clearing_point() -> Vec3 {
    Vec3 { x: 4_000_000, y: SMALL_RADIUS, z: 0 }
}

/// A small sphere of the grid: radius 0.2, resting on the ground, more than
/// 0.9 from the clearing.
pub open spec fn is_small_sphere(s: Sphere) -> bool {
    s.radius == SMALL_RADIUS && s.center.y == SMALL_RADIUS && s.center.minus(clearing_point()).len() > 900_000
}

/// The ground, the small spheres, then glass, diffuse and metal spheres of
/// radius one at `x = 0, -4, 4`.
pub fn random_scene(rng: &mut StdRng) -> (world: HittableList)
    ensures
        4 <= world.objects@.len() <= 488,
        world.objects@[0].center == (Vec3 { x: 0, y: -1_000_000_000i64, z: 0 }),
        world.objects@[0].radius == 1_000_000_000,
        forall|k: int|
            1 <= k < world.objects@.len() - 3 ==> is_small_sphere(#[trigger] world.objects@[k]),
        world.objects@[world.objects@.len() - 3].center == (Vec3 { x: 0, y: ONE, z: 0 }),
        world.objects@[world.objects@.len() - 2].center == (Vec3 { x: -4_000_000i64, y: ONE, z: 0 }),
        world.objects@[world.objects@.len() - 1].center == (Vec3 { x: 4_000_000, y: ONE, z: 0 }),
        world.objects@[world.objects@.len() - 3].radius == ONE,
        world.objects@[world.objects@.len() - 2].radius == ONE,
        world.objects@[world.objects@.len() - 1].radius == ONE,
        *world.objects@[0].material == AnyMaterial::Lambertian(
            Lambertian { albedo: Vec3 { x: 500_000, y: 500_000, z: 500_000 } },
        ),
        *world.objects@[world.objects@.len() - 3].material == AnyMaterial::Dielectric(
            Dielectric { refractive_index: GLASS_INDEX },
        ),
        *world.objects@[world.objects@.len() - 2].material == AnyMaterial::Lambertian(
            Lambertian { albedo: Vec3 { x: 400_000, y: 200_000, z: 100_000 } },
        ),
        *world.objects@[world.objects@.len() - 1].material == AnyMaterial::Metal(
            Metal { albedo: Vec3 { x: 700_000, y: 600_000, z: 500_000 }, fuzz: 0 },
        ),
{
    let mut world = HittableList::new(Vec::new());
    let ground_material = Rc::new(
        AnyMaterial::Lambertian(Lambertian::new(Vec3::new(500_000, 500_000, 500_000))),
    );
    world.add(Sphere::new(Vec3::new(0, -1000 * ONE, 0), 1000 * ONE, ground_material));
    let clearing = Vec3::new(4 * ONE, SMALL_RADIUS, 0);
    let mut a: i64 = -11;
    while a < 11
        invariant
            -11 <= a <= 11,
            1 <= world.objects@.len() <= 1 + (a + 11) * 22,
            world.objects@[0].center == (Vec3 { x: 0, y: -1_000_000_000i64, z: 0 }),
            world.objects@[0].radius == 1_000_000_000,
            clearing == clearing_point(),
            *world.objects@[0].material == AnyMaterial::Lambertian(
                Lambertian { albedo: Vec3 { x: 500_000, y: 500_000, z: 500_000 } },
            ),
            forall|k: int| 1 <= k < world.objects@.len() ==> is_small_sphere(#[trigger] world.objects@[k]),
        decreases 11 - a,
    {
        let mut b: i64 = -11;
        while b < 11
            invariant
                -11 <= a < 11,
                -11 <= b <= 11,
                1 <= world.objects@.len() <= 1 + (a + 11) * 22 + (b + 11),
                world.objects@[0].center == (Vec3 { x: 0, y: -1_000_000_000i64, z: 0 }),
                world.objects@[0].radius == 1_000_000_000,
                clearing == clearing_point(),
                *world.objects@[0].material == AnyMaterial::Lambertian(
                    Lambertian { albedo: Vec3 { x: 500_000, y: 500_000, z: 500_000 } },
                ),
                forall|k: int|
                    1 <= k < world.objects@.len() ==> is_small_sphere(#[trigger] world.objects@[k]),
            decreases 11 - b,
        {
            let choose_mat = random_scalar(rng);
            let center = Vec3::new(
                add_fx(a * SCALE, mul_fx(900_000, random_scalar(rng))),
                SMALL_RADIUS,
                add_fx(b * SCALE, mul_fx(900_000, random_scalar(rng))),
            );
            if center.sub(clearing).length() > 900_000 {
                let sphere_material = if choose_mat < 800_000 {
                    let albedo = random(rng).mul(random(rng));
                    AnyMaterial::Lambertian(Lambertian::new(albedo))
                } else if choose_mat < 950_000 {
                    let albedo = random_in_range(rng, ONE / 2, ONE);
                    let fuzz = mul_fx(random_scalar(rng), ONE / 2);
                    AnyMaterial::Metal(Metal::new(albedo, fuzz))
                } else {
                    AnyMaterial::Dielectric(Dielectric::new(GLASS_INDEX))
                };
                world.add(Sphere::new(center, SMALL_RADIUS, Rc::new(sphere_material)));
            }
            b = b + 1;
        }
        a = a + 1;
    }
    let glass = SphereSpec {
        center: Vec3::new(0, ONE, 0),
        radius: ONE,
        material: Rc::new(AnyMaterial::Dielectric(Dielectric::new(GLASS_INDEX))),
    };
    let diffuse = SphereSpec {
        center: Vec3::new(-4 * ONE, ONE, 0),
        radius: ONE,
        material: Rc::new(
            AnyMaterial::Lambertian(Lambertian::new(Vec3::new(400_000, 200_000, 100_000))),
        ),
    };
    let metal = SphereSpec {
        center: Vec3::new(4 * ONE, ONE, 0),
        radius: ONE,
        material: Rc::new(AnyMaterial::Metal(Metal::new(Vec3::new(700_000, 600_000, 500_000), 0))),
    };
    let ghost grid = world.objects@;
    add_sphere(&mut world, &glass);
    add_sphere(&mut world, &diffuse);
    add_sphere(&mut world, &metal);
    assert forall|k: int| 1 <= k < world.objects@.len() - 3 implies is_small_sphere(
        #[trigger] world.objects@[k],
    ) by {
        assert(world.objects@[k] == grid[k]);
    }
    world
}

} // verus!
