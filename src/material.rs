//! Materials: how a surface turns an incoming ray into an attenuation and
//! a scattered ray, or absorbs it.
use vstd::prelude::*;
use rand::rngs::StdRng;
use crate::dielectric::{white, Dielectric};
use crate::fixed::{lemma_prod_le, ONE};
use crate::hit_record::HitRecord;
use crate::lambertian::Lambertian;
use crate::metal::Metal;
use crate::ray::Ray;
use crate::vector::Color;

verus! {

/// A surface's response to light.
pub trait Material {
    /// Fills in the attenuation and the scattered ray and returns `true`, or
    /// returns `false` when the ray is absorbed. A scattered ray leaves from
    /// the hit point.
    fn scatter(
        &self,
        r_in: &Ray,
        rec: &HitRecord,
        rng: &mut StdRng,
        attenuation: &mut Color,
        scattered: &mut Ray,
    ) -> (r: bool)
        ensures
            r ==> final(scattered).orig == rec.p,
    ;
}

/// The materials a scene can hold.
pub enum AnyMaterial {
    Lambertian(Lambertian),
    Metal(Metal),
    Dielectric(Dielectric),
}

/// The attenuation a material applies to the light it scatters: the albedo
/// for diffuse and metal surfaces, none for glass.
pub open spec fn attenuation_of(m: AnyMaterial) -> Color {
    match m {
        AnyMaterial::Lambertian(l) => l.albedo,
        AnyMaterial::Metal(l) => l.albedo,
        AnyMaterial::Dielectric(_) => white(),
    }
}

/// Only metal ever absorbs a ray.
pub open spec fn may_absorb(m: AnyMaterial) -> bool {
    m is Metal
}

impl AnyMaterial {
    /// A possible outcome of scattering by the variant's own law.
    pub open spec fn scatters(self, r_in: Ray, rec: HitRecord, att: Color, s: Ray, ok: bool) -> bool {
        match self {
            AnyMaterial::Lambertian(m) => m.scatters(r_in, rec, att, s, ok),
            AnyMaterial::Metal(m) => m.scatters(r_in, rec, att, s, ok),
            AnyMaterial::Dielectric(m) => m.scatters(r_in, rec, att, s, ok),
        }
    }

    /// Scatters by the variant's own law.
    pub fn scatter(
        &self,
        r_in: &Ray,
        rec: &HitRecord,
        rng: &mut StdRng,
        attenuation: &mut Color,
        scattered: &mut Ray,
    ) -> (r: bool)
        ensures
            *final(attenuation) == attenuation_of(*self),
            !may_absorb(*self) ==> r,
            final(scattered).orig == rec.p,
            self.scatters(*r_in, *rec, *final(attenuation), *final(scattered), r),
    {
        match self {
            AnyMaterial::Lambertian(m) => m.scatter(r_in, rec, rng, attenuation, scattered),
            AnyMaterial::Metal(m) => m.scatter(r_in, rec, rng, attenuation, scattered),
            AnyMaterial::Dielectric(m) => m.scatter(r_in, rec, rng, attenuation, scattered),
        }
    }
}

impl Material for AnyMaterial {
    fn scatter(
        &self,
        r_in: &Ray,
        rec: &HitRecord,
        rng: &mut StdRng,
        attenuation: &mut Color,
        scattered: &mut Ray,
    ) -> (r: bool) {
        AnyMaterial::scatter(self, r_in, rec, rng, attenuation, scattered)
    }
}

/// An albedo whose channels all lie in `[0, 1]`.
pub open spec fn is_albedo(a: Color) -> bool {
    0 <= a.x <= ONE && 0 <= a.y <= ONE && 0 <= a.z <= ONE
}

/// Attenuating by an albedo in `[0, 1]` never makes a channel of a
/// non-negative color brighter.
pub proof fn lemma_attenuation_never_brightens(albedo: Color, c: Color)
    requires
        is_albedo(albedo),
        c.wf(),
        c.x >= 0,
        c.y >= 0,
        c.z >= 0,
    ensures
        0 <= c.times(albedo).x <= c.x,
        0 <= c.times(albedo).y <= c.y,
        0 <= c.times(albedo).z <= c.z,
{
    lemma_prod_le(c.x as int, albedo.x as int);
    lemma_prod_le(c.y as int, albedo.y as int);
    lemma_prod_le(c.z as int, albedo.z as int);
}

} // verus!
