//! A CPU rasterization pipeline for rotating 3-D meshes, verified end to end:
//! fixed-point linear algebra, near-plane polygon clipping, back-face culling
//! and flat shading, painter's-algorithm depth ordering, a scanline/Bresenham
//! rasterizer, and the triple-buffer handoff between the rendering producer
//! and the display consumer.
//!
//! Geometry coordinates are held in signed 64-bit fixed point: a value `v`
//! stands for the real number `v / 65536`. All arithmetic saturates at the
//! i64 range and truncates quotients toward zero, so every operation is total
//! and its result is pinned exactly by the contracts.

pub mod fx;
pub mod vec3;
pub mod tri;
pub mod mat4;
pub mod raster;
pub mod tribuf;
pub mod engine;
