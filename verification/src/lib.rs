//! A software 3D rasterizer: camera and model transforms, near-plane
//! clipping, perspective-correct screen mapping, and triangle fill with
//! depth testing and directional-light shading, all over fixed-point
//! integer arithmetic.
//!
//! Scalars are carried as `i64` values scaled by `fixed::ONE` (a 16.16
//! fixed-point format), so every arithmetic step has an exact contract.

pub mod camera;
pub mod color;
pub mod depth_buffer;
pub mod draw_buffer;
pub mod fixed;
pub mod game_object;
pub mod matrices;
pub mod mesh;
pub mod point;
pub mod rasterizer;
pub mod scene;
pub mod triangle;
pub mod vec4;
