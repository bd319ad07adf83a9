//! Core of a small Whitted-style ray tracer.
//!
//! The scene geometry and shading work in floating point and live with the
//! binary around this crate; what stands here is the discrete machinery the
//! renderer rests on, each piece with a verified contract:
//!
//! - [`frandom`]: the linear congruential generator that supplies jitter,
//! - [`board`]: the checkerboard cell rule of the board texture,
//! - [`outputs`]: the raster image sink, which accepts pixels strictly in
//!   row-major order and assembles the binary image bytes,
//! - [`render`]: the fan-in step that writes independently computed scanlines
//!   to the sink in their original order.

pub mod board;
pub mod frandom;
pub mod outputs;
pub mod render;
