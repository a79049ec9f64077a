pub mod arithmetic;
pub mod camera;
pub mod color;
pub mod conversion;
pub mod determinism;
pub mod hittable;
pub mod hittable_list;
pub mod interval;
pub mod material;
pub mod ray;
pub mod sampler;
pub mod scalar;
pub mod sphere;
pub mod utils;
pub mod vec3;
