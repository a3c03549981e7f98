//! Spheres, and their intersection with rays.
use vstd::prelude::*;
use vstd::arithmetic::div_mod::lemma_div_pos_is_pos;
use std::rc::Rc;
use crate::fixed::{
    add_fx, diff, div_fx, lemma_div_mul_le, lemma_isqrt_exists, lemma_quot_monotone,
    lemma_root_nonneg, SCALE, lemma_square_nonneg, mul_fx,
    prod, quot, root, sqrt_fx, sub_fx, sum,
};
use crate::hit_record::{face_normal, facing_normal, is_front_face, HitRecord};
use crate::hittable::Hittable;
use crate::hittable_list::HittableList;
use crate::interval::Interval;
use crate::material::AnyMaterial;
use crate::ray::Ray;
use crate::vector::{dot, dot_spec, Point3, Vec3};

verus! {

pub struct Sphere {
    pub center: Point3,
    pub radius: i64,
    pub material: Rc<AnyMaterial>,
}

/// Parameters of a sphere to be placed in a scene.
pub struct SphereSpec {
    pub center: Point3,
    pub radius: i64,
    pub material: Rc<AnyMaterial>,
}

impl Sphere {
    /// `h = D.(C - O)`, the half linear coefficient of the reduced quadratic
    /// `|O + tD - C|^2 = r^2`.
    pub open spec fn half_b(self, r: Ray) -> int {
        dot_spec(r.dir, self.center.minus(r.orig))
    }

    /// `c = |C - O|^2 - r^2`.
    pub open spec fn offset(self, r: Ray) -> int {
        diff(self.center.minus(r.orig).len2(), prod(self.radius as int, self.radius as int))
    }

    /// `h^2 - a c`, with `a = |D|^2`.
    pub open spec fn discriminant(self, r: Ray) -> int {
        diff(prod(self.half_b(r), self.half_b(r)), prod(r.dir.len2(), self.offset(r)))
    }

    /// The smaller root of the quadratic.
    pub open spec fn near_root(self, r: Ray) -> int {
        quot(diff(self.half_b(r), root(self.discriminant(r))), r.dir.len2())
    }

    /// The larger root of the quadratic.
    pub open spec fn far_root(self, r: Ray) -> int {
        quot(sum(self.half_b(r), root(self.discriminant(r))), r.dir.len2())
    }

    /// The ray parameter of the hit: no real root is a miss; otherwise the
    /// smaller root if the interval surrounds it, else the larger one if
    /// the interval surrounds that, else a miss.
    pub open spec fn root_in(self, r: Ray, ray_t: Interval) -> Option<int> {
        if self.discriminant(r) < 0 {
            None
        } else if ray_t.min < self.near_root(r) < ray_t.max {
            Some(self.near_root(r))
        } else if ray_t.min < self.far_root(r) < ray_t.max {
            Some(self.far_root(r))
        } else {
            None
        }
    }

    /// The outward normal at a point of the surface: `(p - C) / radius`.
    pub open spec fn outward_normal(self, p: Point3) -> Vec3 {
        (p.minus(self.center)).divided(self.radius as int)
    }

    /// `rec` describes this sphere hit by `r` at parameter `t`.
    pub open spec fn is_record(self, r: Ray, t: int, rec: HitRecord) -> bool {
        &&& rec.t == t
        &&& rec.p == r.point_at(t)
        &&& rec.front_face == is_front_face(r, self.outward_normal(rec.p))
        &&& rec.normal == facing_normal(r, self.outward_normal(rec.p))
        &&& rec.material == self.material
        &&& rec.wf()
    }

    pub fn new(center: Point3, radius: i64, material: Rc<AnyMaterial>) -> (s: Sphere)
        ensures
            s.center == center,
            s.radius == radius,
            s.material == material,
    {
        Sphere { center, radius, material }
    }

    /// The intersection of the ray with the sphere at the parameter that
    /// `root_in` gives.
    pub fn hit(&self, r: &Ray, ray_t: &Interval) -> (res: Option<HitRecord>)
        ensures
            match self.root_in(*r, *ray_t) {
                None => res is None,
                Some(t) => res matches Some(rec) && self.is_record(*r, t, rec),
            },
    {
        let oc = self.center.sub(r.orig);
        let a = r.dir.length_squared();
        let h = dot(r.dir, oc);
        let c = sub_fx(oc.length_squared(), mul_fx(self.radius, self.radius));
        let discriminant = sub_fx(mul_fx(h, h), mul_fx(a, c));
        if discriminant < 0 {
            return None;
        }
        let discriminant_sqrt = sqrt_fx(discriminant);
        let mut root = div_fx(sub_fx(h, discriminant_sqrt), a);
        if !ray_t.surrounds(root) {
            root = div_fx(add_fx(h, discriminant_sqrt), a);
            if !ray_t.surrounds(root) {
                return None;
            }
        }
        let t = root;
        let p = r.at(t);
        let outward_normal = p.sub(self.center).div(self.radius);
        let (front_face, normal) = face_normal(r, &outward_normal);
        Some(HitRecord { p, normal, t, front_face, material: Rc::clone(&self.material) })
    }
}

/// The smaller root never exceeds the larger one.
pub proof fn lemma_near_le_far(s: Sphere, r: Ray)
    requires
        s.discriminant(r) >= 0,
    ensures
        s.near_root(r) <= s.far_root(r),
{
    let sq = root(s.discriminant(r));
    lemma_root_nonneg(s.discriminant(r));
    lemma_square_nonneg(r.dir.x as int);
    lemma_square_nonneg(r.dir.y as int);
    lemma_square_nonneg(r.dir.z as int);
    lemma_quot_monotone(diff(s.half_b(r), sq), sum(s.half_b(r), sq), r.dir.len2());
}

/// Narrowing the upper end of the interval to `c` keeps a hit below `c`
/// and loses one at or above it.
pub proof fn lemma_narrowed_interval(s: Sphere, r: Ray, ray_t: Interval, c: i64)
    requires
        c <= ray_t.max,
    ensures
        s.root_in(r, Interval { min: ray_t.min, max: c }) == match s.root_in(r, ray_t) {
            Some(t) => if t < c {
                Some(t)
            } else {
                None
            },
            None => None,
        },
{
    if s.discriminant(r) >= 0 {
        lemma_near_le_far(s, r);
    }
}

/// A ray that starts outside a sphere and runs away from its center never
/// hits it at a positive parameter.
pub proof fn lemma_ray_away_misses(s: Sphere, r: Ray, ray_t: Interval)
    requires
        s.offset(r) > 0,
        s.half_b(r) < 0,
        ray_t.min >= 0,
    ensures
        s.root_in(r, ray_t) is None,
{
    let h = s.half_b(r);
    let a = r.dir.len2();
    let c = s.offset(r);
    let disc = s.discriminant(r);
    if disc >= 0 {
        lemma_square_nonneg(r.dir.x as int);
        lemma_square_nonneg(r.dir.y as int);
        lemma_square_nonneg(r.dir.z as int);
        assert(a * c >= 0) by (nonlinear_arith)
            requires
                a >= 0,
                c > 0,
        ;
        lemma_div_pos_is_pos(a * c, SCALE as int);
        assert(prod(a, c) >= 0);
        assert(h * h >= 0) by (nonlinear_arith);
        lemma_div_pos_is_pos(h * h, SCALE as int);
        lemma_div_mul_le(h * h, SCALE as int);
        assert(disc * SCALE <= h * h) by (nonlinear_arith)
            requires
                0 <= disc <= (h * h) / (SCALE as int),
                (h * h) / (SCALE as int) * SCALE <= h * h,
                SCALE > 0,
        ;
        let sq = root(disc);
        lemma_root_nonneg(disc);
        if disc > 0 {
            assert(disc * SCALE > 0) by (nonlinear_arith)
                requires
                    disc > 0,
                    SCALE > 0,
            ;
            lemma_isqrt_exists(disc * SCALE);
            assert(sq * sq <= disc * SCALE);
            assert(sq <= -h) by (nonlinear_arith)
                requires
                    sq >= 0,
                    h < 0,
                    sq * sq <= h * h,
            ;
        }
        assert(sum(h, sq) <= 0);
        lemma_quot_monotone(sum(h, sq), 0, a);
        lemma_near_le_far(s, r);
    }
}

impl Hittable for Sphere {
    fn hit(&self, r: &Ray, ray_t: &Interval) -> (res: Option<HitRecord>) {
        Sphere::hit(self, r, ray_t)
    }
}

/// Places a sphere, as described, in the scene.
pub fn add_sphere(world: &mut HittableList, spec: &SphereSpec)
    ensures
        final(world).objects@.len() == old(world).objects@.len() + 1,
        forall|k: int|
            0 <= k < old(world).objects@.len() ==> #[trigger] final(world).objects@[k]
                == old(world).objects@[k],
        final(world).objects@.last().center == spec.center,
        final(world).objects@.last().radius == spec.radius,
        final(world).objects@.last().material == spec.material,
{
    world.add(Sphere::new(spec.center, spec.radius, Rc::clone(&spec.material)));
}

} // verus!
