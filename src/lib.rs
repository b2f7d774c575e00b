//! A path tracer's verified core: the PPM image encoding, the row-major
//! pixel buffer that collects rendered pixels, the scene list and its
//! closest-hit selection, and the bounce-budget decisions of the tracer.

pub mod hittable_list;
pub mod image;
pub mod path;
pub mod ppm;
