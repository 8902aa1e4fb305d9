//! Procedural voxel terrain generation and isometric render planning.
pub mod map;
mod random;
pub mod renderer;
