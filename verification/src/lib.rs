//! Procedural isosurface terrain, verified.
//!
//! A density field sampled on a grid is turned into a triangle mesh by a
//! marching-cubes polygonizer, one chunk at a time, while a streaming manager
//! decides which chunk coordinates are visible from a moving viewpoint,
//! evicts the ones that fell out of range and hands newly visible ones to a
//! mesh builder. All positions and density values are fixed-point integers,
//! so every step of the geometry is stated and proved exactly.

pub mod adapter;
pub mod builder;
pub mod math;
pub mod mesh;
pub mod polygonize;
pub mod streaming;
pub mod tables;
