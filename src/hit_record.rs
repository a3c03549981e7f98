//! What an intersection yields: the point, the normal facing the ray, the
//! ray parameter, which side was hit, and the surface's material.
use vstd::prelude::*;
use std::rc::Rc;
use crate::material::AnyMaterial;
use crate::ray::Ray;
use crate::vector::{dot, dot_spec, Point3, Vec3};

verus! {

pub struct HitRecord {
    /// Point of intersection between the ray and the surface.
    pub p: Point3,
    /// Unit normal, turned against the incoming ray.
    pub normal: Vec3,
    pub material: Rc<AnyMaterial>,
    /// Ray parameter of the intersection: `p = origin + t direction`.
    pub t: i64,
    /// The ray arrived from the side the outward normal points to.
    pub front_face: bool,
}

/// The ray meets the surface from outside when it runs against the outward
/// normal.
pub open spec fn is_front_face(r: Ray, outward_normal: Vec3) -> bool {
    dot_spec(r.dir, outward_normal) < 0
}

/// The normal that faces the ray.
pub open spec fn facing_normal(r: Ray, outward_normal: Vec3) -> Vec3 {
    if is_front_face(r, outward_normal) {
        outward_normal
    } else {
        outward_normal.negated()
    }
}

impl HitRecord {
    /// The hit point and the normal are in range.
    pub open spec fn wf(&self) -> bool {
        self.p.wf() && self.normal.wf()
    }

    pub fn p(&self) -> (r: &Point3)
        ensures
            *r == self.p,
    {
        &self.p
    }

    pub fn normal(&self) -> (r: &Vec3)
        ensures
            *r == self.normal,
    {
        &self.normal
    }

    pub fn material(&self) -> (r: &Rc<AnyMaterial>)
        ensures
            *r == self.material,
    {
        &self.material
    }

    pub fn t(&self) -> (r: i64)
        ensures
            r == self.t,
    {
        self.t
    }

    pub fn front_face(&self) -> (r: bool)
        ensures
            r == self.front_face,
    {
        self.front_face
    }
}

/// Which side the ray arrives from, and the normal turned against it.
pub fn face_normal(r: &Ray, outward_normal: &Vec3) -> (res: (bool, Vec3))
    ensures
        res.0 == is_front_face(*r, *outward_normal),
        res.1 == facing_normal(*r, *outward_normal),
        outward_normal.wf() ==> res.1.wf(),
{
    let front_face = dot(r.dir, *outward_normal) < 0;
    let normal = if front_face {
        *outward_normal
    } else {
        outward_normal.neg()
    };
    (front_face, normal)
}

} // verus!
