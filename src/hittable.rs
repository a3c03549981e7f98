//! Things a ray can hit.
use vstd::prelude::*;
use crate::hit_record::HitRecord;
use crate::interval::Interval;
use crate::ray::Ray;

verus! {

pub trait Hittable {
    /// The nearest intersection whose ray parameter lies strictly inside
    /// `ray_t`, if there is one.
    fn hit(&self, r: &Ray, ray_t: &Interval) -> (res: Option<HitRecord>)
        ensures
            res matches Some(rec) ==> ray_t.min < rec.t < ray_t.max,
    ;
}

} // verus!
