//! Verified cores of three small graphics programs: the driver of a sphere
//! ray tracer, a side-scrolling platform game, and Conway's Game of Life.

pub mod decimal;
pub mod engine;
pub mod game;
pub mod life;
pub mod ray_tracing;
pub mod rhb;
pub mod segments;
