//! A scene: an ordered collection of spheres, hit at the nearest one.
use vstd::prelude::*;
use crate::hit_record::HitRecord;
use crate::hittable::Hittable;
use crate::interval::Interval;
use crate::ray::Ray;
use crate::sphere::{lemma_narrowed_interval, Sphere};

verus! {

/// Among the first `k` spheres, `rec` is the hit of the first one whose hit
/// inside `ray_t` is nearest.
pub open spec fn nearest_among(objs: Seq<Sphere>, k: int, r: Ray, ray_t: Interval, rec: HitRecord) -> bool {
    exists|i: int|
        0 <= i < k && #[trigger] objs[i].root_in(r, ray_t) == Some(rec.t as int) && objs[i].is_record(
            r,
            rec.t as int,
            rec,
        ) && (forall|j: int|
            0 <= j < k && (#[trigger] objs[j].root_in(r, ray_t)) is Some ==> rec.t <= objs[j].root_in(
                r,
                ray_t,
            )->0) && (forall|j: int|
            0 <= j < i && (#[trigger] objs[j].root_in(r, ray_t)) is Some ==> rec.t < objs[j].root_in(
                r,
                ray_t,
            )->0)
}

/// The nearest hit among the first `k` spheres is no farther than any hit
/// among them, and comes from one of them.
proof fn lemma_nearest_bound(objs: Seq<Sphere>, k: int, r: Ray, ray_t: Interval, rec: HitRecord)
    requires
        nearest_among(objs, k, r, ray_t, rec),
    ensures
        forall|j: int|
            0 <= j < k && (#[trigger] objs[j].root_in(r, ray_t)) is Some ==> rec.t <= objs[j].root_in(
                r,
                ray_t,
            )->0,
        exists|i: int|
            0 <= i < k && #[trigger] objs[i].root_in(r, ray_t) == Some(rec.t as int) && objs[i].is_record(
                r,
                rec.t as int,
                rec,
            ) && (forall|j: int|
                0 <= j < i && (#[trigger] objs[j].root_in(r, ray_t)) is Some ==> rec.t < objs[j].root_in(
                    r,
                    ray_t,
                )->0),
{
}

/// None of the first `k` spheres is hit inside `ray_t`.
pub open spec fn all_miss(objs: Seq<Sphere>, k: int, r: Ray, ray_t: Interval) -> bool {
    forall|i: int| 0 <= i < k ==> (#[trigger] objs[i].root_in(r, ray_t)) is None
}

pub struct HittableList {
    pub objects: Vec<Sphere>,
}

impl HittableList {
    pub fn new(objects: Vec<Sphere>) -> (r: HittableList)
        ensures
            r.objects@ == objects@,
    {
        HittableList { objects }
    }

    pub fn add(&mut self, object: Sphere)
        ensures
            final(self).objects@ == old(self).objects@.push(object),
    {
        self.objects.push(object);
    }

    /// The hit of the sphere whose intersection inside `ray_t` is nearest,
    /// the first such sphere on a tie, or nothing when no sphere is hit.
    #[verifier::rlimit(40)]
    pub fn hit(&self, r: &Ray, ray_t: &Interval) -> (res: Option<HitRecord>)
        ensures
            res is None <==> all_miss(self.objects@, self.objects@.len() as int, *r, *ray_t),
            res matches Some(rec) ==> ray_t.min < rec.t < ray_t.max,
            res matches Some(rec) ==> nearest_among(
                self.objects@,
                self.objects@.len() as int,
                *r,
                *ray_t,
                rec,
            ),
    {
        let ghost objs = self.objects@;
        let mut closest_so_far = ray_t.max;
        let mut hit_anything: Option<HitRecord> = None;
        let mut k: usize = 0;
        while k < self.objects.len()
            invariant
                objs == self.objects@,
                k <= objs.len(),
                closest_so_far <= ray_t.max,
                hit_anything matches Some(rec) ==> ray_t.min < rec.t < ray_t.max,
                hit_anything is None ==> closest_so_far == ray_t.max && all_miss(objs, k as int, *r, *ray_t),
                hit_anything matches Some(rec) ==> closest_so_far == rec.t && nearest_among(
                    objs,
                    k as int,
                    *r,
                    *ray_t,
                    rec,
                ),
            decreases objs.len() - k,
        {
            let narrowed = Interval::new(ray_t.min, closest_so_far);
            proof {
                lemma_narrowed_interval(objs[k as int], *r, *ray_t, closest_so_far);
            }
            let found = self.objects[k].hit(r, &narrowed);
            match found {
                Some(rec) => {
                    proof {
                        let t = rec.t as int;
                        assert(objs[k as int].root_in(*r, *ray_t) == Some(t));
                        if hit_anything is Some {
                            lemma_nearest_bound(objs, k as int, *r, *ray_t, hit_anything->0);
                        }
                        assert forall|j: int|
                            0 <= j < k + 1 && (#[trigger] objs[j].root_in(*r, *ray_t)) is Some implies t
                            <= objs[j].root_in(*r, *ray_t)->0 by {}
                        assert(nearest_among(objs, k + 1, *r, *ray_t, rec));
                    }
                    closest_so_far = rec.t;
                    hit_anything = Some(rec);
                },
                None => {
                    proof {
                        if hit_anything is Some {
                            lemma_nearest_bound(objs, k as int, *r, *ray_t, hit_anything->0);
                            assert(nearest_among(objs, k + 1, *r, *ray_t, hit_anything->0));
                        }
                    }
                },
            }
            k = k + 1;
        }
        hit_anything
    }
}

impl Default for HittableList {
    /// The empty scene.
    fn default() -> (r: Self)
        ensures
            r.objects@.len() == 0,
    {
        HittableList::new(Vec::new())
    }
}

impl Hittable for HittableList {
    fn hit(&self, r: &Ray, ray_t: &Interval) -> (res: Option<HitRecord>) {
        HittableList::hit(self, r, ray_t)
    }
}

} // verus!
