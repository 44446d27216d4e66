//! A grid ray caster in fixed-point arithmetic: tile map, player pose,
//! per-column ray marching, wall projection and shading, and alpha
//! compositing of glyph coverage into a packed RGB pixel buffer.

pub mod angle;
pub mod grid;
pub mod raycast;
pub mod shading;
pub mod compositor;
pub mod player;
pub mod frame;
