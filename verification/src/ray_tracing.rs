//! The discrete side of the ray tracer: which pixel is sampled when, how deep
//! a ray may bounce, which of several hits is the nearest, what a surface
//! does with a ray, how the scene is laid out, and how the finished image is
//! written down. The floating-point geometry is left to the caller.

pub mod hittable;
pub mod material;
pub mod ppm;
pub mod render;
pub mod scene;
