//! A signed-distance-field renderer core: primitive shapes and CSG
//! combinators evaluated as a distance field, a sphere-tracing integrator
//! that walks rays through that field, and a shading pipeline (normal
//! estimation, soft shadows, ambient occlusion) over the hit points.
//!
//! All arithmetic is fixed-point: a real number is stored as an `i64`
//! count of 2^-20 units, so every operation has an exact integer
//! specification and every contract pins the result down bit for bit.

pub mod camera;
pub mod distance_fields;
pub mod fx;
pub mod ray;
pub mod ray_marching;
pub mod vec3;
pub mod vec4;
