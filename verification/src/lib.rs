//! A Monte-Carlo path tracer over fixed-point reals: scene geometry with
//! exact contracts for each intersection routine, a bounding-volume
//! hierarchy, materials and textures, a camera, and the row scheduling of a
//! parallel render.

pub mod scalar;
pub mod vec3;
pub mod ray;
pub mod aabb;
pub mod random;
pub mod trig;
pub mod perlin;
pub mod image;
pub mod texture;
pub mod materials;
pub mod hittable;
pub mod sphere;
pub mod rectangle;
pub mod translate;
pub mod rotate;
pub mod cuboid;
pub mod constant_medium;
pub mod bvh;
pub mod integrator;
pub mod camera;
pub mod viewport;
pub mod render;
