//! Reflective surfaces, optionally roughened.
use vstd::prelude::*;
use rand::rngs::StdRng;
use crate::hit_record::HitRecord;
use crate::material::Material;
use crate::ray::Ray;
use crate::vector::{
    dot, dot_spec, in_unit_ball, random_unit_vector, reflect, reflect_spec, unit_vector, Color,
    Vec3,
};

verus! {

pub struct Metal {
    pub albedo: Color,
    /// Roughness, expected in `[0, 1]`: the radius of the ball the ideal
    /// reflection is perturbed within.
    pub fuzz: i64,
}

/// The fuzzed reflection of the unit incoming direction.
pub open spec fn metal_direction(dir: Vec3, normal: Vec3, fuzz: int, u: Vec3) -> Vec3 {
    reflect_spec(dir.unit(), normal).plus(u.scaled(fuzz))
}

impl Metal {
    /// `s` and `att` are a possible outcome of scattering `r_in` at `rec`,
    /// with `ok` whether the ray scatters.
    pub open spec fn scatters(self, r_in: Ray, rec: HitRecord, att: Color, s: Ray, ok: bool) -> bool {
        &&& att == self.albedo
        &&& s.orig == rec.p
        &&& exists|p: Vec3|
            in_unit_ball(p) && s.dir == metal_direction(
                r_in.dir,
                rec.normal,
                self.fuzz as int,
                #[trigger] p.unit(),
            )
        &&& ok == (dot_spec(s.dir, rec.normal) > 0)
        &&& rec.wf() ==> s.orig.wf() && s.dir.wf()
    }

    pub fn new(albedo: Color, fuzz: i64) -> (r: Metal)
        ensures
            r.albedo == albedo,
            r.fuzz == fuzz,
    {
        Metal { albedo, fuzz }
    }

    /// Reflects the unit incoming direction about the normal and perturbs
    /// it by `fuzz` times a random unit vector; the ray scatters only when it
    /// leaves above the surface. The attenuation is the albedo.
    pub fn scatter(
        &self,
        r_in: &Ray,
        rec: &HitRecord,
        rng: &mut StdRng,
        attenuation: &mut Color,
        scattered: &mut Ray,
    ) -> (r: bool)
        ensures
            *final(attenuation) == self.albedo,
            final(scattered).orig == rec.p,
            exists|p: Vec3|
                in_unit_ball(p) && final(scattered).dir == metal_direction(
                    r_in.dir,
                    rec.normal,
                    self.fuzz as int,
                    #[trigger] p.unit(),
                ),
            r == (dot_spec(final(scattered).dir, rec.normal) > 0),
            rec.wf() ==> final(scattered).orig.wf(),
            final(scattered).dir.wf(),
            self.scatters(*r_in, *rec, *final(attenuation), *final(scattered), r),
    {
        let u = random_unit_vector(rng);
        let reflected = reflect(&unit_vector(r_in.dir), &rec.normal).add(u.scale(self.fuzz));
        *scattered = Ray::new(rec.p, reflected);
        *attenuation = self.albedo;
        dot(scattered.dir, rec.normal) > 0
    }
}

impl Material for Metal {
    fn scatter(
        &self,
        r_in: &Ray,
        rec: &HitRecord,
        rng: &mut StdRng,
        attenuation: &mut Color,
        scattered: &mut Ray,
    ) -> (r: bool) {
        Metal::scatter(self, r_in, rec, rng, attenuation, scattered)
    }
}

} // verus!
