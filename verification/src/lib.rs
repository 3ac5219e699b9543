//! A software 3D rendering core: dense 4x4 matrix algebra, a perspective
//! projection pipeline, a triangle rasterizer with depth testing and
//! perspective-correct interpolation, texture sampling, and ray-triangle
//! intersection for picking.
//!
//! All geometry runs on a saturating 16.16 fixed-point scalar (`fixed`), so
//! every arithmetic step has an exact mathematical mirror in its contract.
//! Callers that work in floating point convert at the boundary.

pub mod controls;
pub mod draw;
pub mod fixed;
pub mod framebuffer;
pub mod laws;
pub mod matrix;
pub mod model;
pub mod object;
pub mod texture;
