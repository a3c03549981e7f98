//! Diffuse surfaces.
use vstd::prelude::*;
use rand::rngs::StdRng;
use crate::hit_record::HitRecord;
use crate::material::Material;
use crate::ray::Ray;
use crate::vector::{in_unit_ball, random_unit_vector, Color, Vec3};

verus! {

pub struct Lambertian {
    pub albedo: Color,
}

/// The diffuse direction: the normal plus a random unit vector, or the
/// normal alone where the sum vanishes.
pub open spec fn lambertian_direction(normal: Vec3, u: Vec3) -> Vec3 {
    if normal.plus(u).is_near_zero() {
        normal
    } else {
        normal.plus(u)
    }
}

impl Lambertian {
    /// `s` and `att` are a possible outcome of scattering `r_in` at `rec`,
    /// with `ok` whether the ray scatters.
    pub open spec fn scatters(self, r_in: Ray, rec: HitRecord, att: Color, s: Ray, ok: bool) -> bool {
        &&& ok
        &&& att == self.albedo
        &&& s.orig == rec.p
        &&& exists|p: Vec3|
            in_unit_ball(p) && s.dir == lambertian_direction(rec.normal, #[trigger] p.unit())
        &&& rec.wf() ==> s.orig.wf() && s.dir.wf()
    }

    pub fn new(albedo: Color) -> (r: Lambertian)
        ensures
            r.albedo == albedo,
    {
        Lambertian { albedo }
    }

    /// Always scatters, from the hit point, around the normal; the
    /// attenuation is the albedo.
    pub fn scatter(
        &self,
        r_in: &Ray,
        rec: &HitRecord,
        rng: &mut StdRng,
        attenuation: &mut Color,
        scattered: &mut Ray,
    ) -> (r: bool)
        ensures
            r,
            *final(attenuation) == self.albedo,
            final(scattered).orig == rec.p,
            exists|p: Vec3|
                in_unit_ball(p) && final(scattered).dir == lambertian_direction(
                    rec.normal,
                    #[trigger] p.unit(),
                ),
            rec.wf() ==> final(scattered).orig.wf() && final(scattered).dir.wf(),
            self.scatters(*r_in, *rec, *final(attenuation), *final(scattered), r),
    {
        let u = random_unit_vector(rng);
        let mut scatter_direction = rec.normal.add(u);
        if scatter_direction.near_zero() {
            scatter_direction = rec.normal;
        }
        *scattered = Ray::new(rec.p, scatter_direction);
        *attenuation = self.albedo;
        true
    }
}

impl Material for Lambertian {
    fn scatter(
        &self,
        r_in: &Ray,
        rec: &HitRecord,
        rng: &mut StdRng,
        attenuation: &mut Color,
        scattered: &mut Ray,
    ) -> (r: bool) {
        Lambertian::scatter(self, r_in, rec, rng, attenuation, scattered)
    }
}

} // verus!
