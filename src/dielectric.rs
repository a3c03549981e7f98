//! Clear refracting surfaces such as glass.
use vstd::prelude::*;
use rand::rngs::StdRng;
use crate::fixed::{add_fx, diff, div_fx, mul_fx, prod, quot, root, sqrt_fx, sub_fx, sum, ONE};
use crate::hit_record::HitRecord;
use crate::material::Material;
use crate::random::random_scalar;
use crate::ray::Ray;
use crate::vector::{
    dot, dot_spec, min_one, reflect, reflect_spec, refract, refract_spec, unit_vector, Color,
    Vec3,
};

verus! {

pub struct Dielectric {
    /// Refractive index of the material relative to the enclosing medium.
    pub refractive_index: i64,
}

/// The ratio of indices the ray crosses: entering, `1 / index`; leaving,
/// `index`.
pub open spec fn index_ratio(refractive_index: int, front_face: bool) -> int {
    if front_face {
        quot(ONE as int, refractive_index)
    } else {
        refractive_index
    }
}

/// Schlick's approximation of the reflectance at incidence cosine `c`.
pub open spec fn schlick(c: int, ri: int) -> int {
    let q = quot(diff(ONE as int, ri), sum(ONE as int, ri));
    let r0 = prod(q, q);
    let m = diff(ONE as int, c);
    sum(r0, prod(diff(ONE as int, r0), prod(prod(prod(prod(m, m), m), m), m)))
}

/// The cosine of incidence of the unit direction `uv` on normal `n`,
/// capped at one.
pub open spec fn incidence_cos(uv: Vec3, n: Vec3) -> int {
    min_one(dot_spec(uv.negated(), n))
}

/// Refraction is impossible: `ri sin > 1`.
pub open spec fn total_internal_reflection(c: int, ri: int) -> bool {
    prod(ri, root(diff(ONE as int, prod(c, c)))) > ONE
}

/// The direction chosen by a uniform draw `d` where refraction is possible:
/// reflect when `d` falls below the reflectance, refract otherwise.
pub open spec fn draw_direction(d: int, uv: Vec3, n: Vec3, ri: int) -> Vec3 {
    if schlick(incidence_cos(uv, n), ri) > d {
        reflect_spec(uv, n)
    } else {
        refract_spec(uv, n, ri)
    }
}

pub open spec fn white() -> Color {
    Vec3 { x: ONE, y: ONE, z: ONE }
}

fn schlick_reflectance(cosine: i64, refraction_index: i64) -> (r: i64)
    ensures
        r == schlick(cosine as int, refraction_index as int),
{
    let q = div_fx(sub_fx(ONE, refraction_index), add_fx(ONE, refraction_index));
    let r0 = mul_fx(q, q);
    let m = sub_fx(ONE, cosine);
    add_fx(r0, mul_fx(sub_fx(ONE, r0), mul_fx(mul_fx(mul_fx(mul_fx(m, m), m), m), m)))
}

impl Dielectric {
    /// `s` and `att` are a possible outcome of scattering `r_in` at `rec`,
    /// with `ok` whether the ray scatters.
    pub open spec fn scatters(self, r_in: Ray, rec: HitRecord, att: Color, s: Ray, ok: bool) -> bool {
        &&& ok
        &&& att == white()
        &&& s.orig == rec.p
        &&& ({
            let ri = index_ratio(self.refractive_index as int, rec.front_face);
            let uv = r_in.dir.unit();
            if total_internal_reflection(incidence_cos(uv, rec.normal), ri) {
                s.dir == reflect_spec(uv, rec.normal)
            } else {
                exists|d: int| 0 <= d < ONE && s.dir == #[trigger] draw_direction(d, uv, rec.normal, ri)
            }
        })
        &&& rec.wf() ==> s.orig.wf() && s.dir.wf()
    }

    pub fn new(refractive_index: i64) -> (r: Dielectric)
        ensures
            r.refractive_index == refractive_index,
    {
        Dielectric { refractive_index }
    }

    /// Always scatters, without tint: reflects where refraction is
    /// impossible or where a uniform draw falls below the Schlick
    /// reflectance, and refracts otherwise.
    pub fn scatter(
        &self,
        r_in: &Ray,
        rec: &HitRecord,
        rng: &mut StdRng,
        attenuation: &mut Color,
        scattered: &mut Ray,
    ) -> (r: bool)
        ensures
            r,
            *final(attenuation) == white(),
            final(scattered).orig == rec.p,
            ({
                let ri = index_ratio(self.refractive_index as int, rec.front_face);
                let uv = r_in.dir.unit();
                let c = incidence_cos(uv, rec.normal);
                if total_internal_reflection(c, ri) {
                    final(scattered).dir == reflect_spec(uv, rec.normal)
                } else {
                    exists|d: int|
                        0 <= d < ONE && final(scattered).dir == #[trigger] draw_direction(
                            d,
                            uv,
                            rec.normal,
                            ri,
                        )
                }
            }),
            final(scattered).dir.wf(),
            self.scatters(*r_in, *rec, *final(attenuation), *final(scattered), r),
    {
        *attenuation = Vec3::new(ONE, ONE, ONE);
        let ri = if rec.front_face {
            div_fx(ONE, self.refractive_index)
        } else {
            self.refractive_index
        };
        let unit_direction = unit_vector(r_in.dir);
        let d = dot(unit_direction.neg(), rec.normal);
        let cos_theta = if d < ONE {
            d
        } else {
            ONE
        };
        let sin_theta = sqrt_fx(sub_fx(ONE, mul_fx(cos_theta, cos_theta)));
        let cannot_refract = mul_fx(ri, sin_theta) > ONE;
        let direction = if cannot_refract {
            reflect(&unit_direction, &rec.normal)
        } else {
            let draw = random_scalar(rng);
            let direction = if schlick_reflectance(cos_theta, ri) > draw {
                reflect(&unit_direction, &rec.normal)
            } else {
                refract(&unit_direction, &rec.normal, ri)
            };
            assert(direction == draw_direction(draw as int, r_in.dir.unit(), rec.normal, ri as int));
            direction
        };
        *scattered = Ray::new(rec.p, direction);
        true
    }
}

impl Material for Dielectric {
    fn scatter(
        &self,
        r_in: &Ray,
        rec: &HitRecord,
        rng: &mut StdRng,
        attenuation: &mut Color,
        scattered: &mut Ray,
    ) -> (r: bool) {
        Dielectric::scatter(self, r_in, rec, rng, attenuation, scattered)
    }
}

} // verus!
