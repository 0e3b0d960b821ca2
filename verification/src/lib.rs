//! A software 3D-to-2D rendering core: geometric primitives in a shared world
//! space, virtual cameras with extrinsic/intrinsic matrix pipelines, a world
//! registry, and a point rasterizer that stamps visible points into a flat
//! pixel buffer.
//!
//! All geometry is carried out in exact rational arithmetic, so every
//! transform, visibility test and rasterization step has a precise
//! mathematical contract.

pub mod extrinsics;
pub mod camera;
pub mod geometry;
pub mod linalg;
pub mod rational;
pub mod world;
