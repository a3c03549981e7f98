//! A ray tracer for scenes of spheres, with every scalar held as a
//! saturating fixed-point integer so that the geometry, the scattering
//! laws and the integrator can be stated and proved exactly.

pub mod fixed;
pub mod random;
pub mod vector;
pub mod ray;
pub mod interval;
pub mod hit_record;
pub mod material;
pub mod lambertian;
pub mod metal;
pub mod dielectric;
pub mod hittable;
pub mod sphere;
pub mod hittable_list;
pub mod color;
pub mod camera;
pub mod random_scene;
