//! A bouncing ball in a bounded arena: fixed-point physics, pointer dragging,
//! and the rasterisation of the ball as a filled disc.

pub mod physics;
pub mod input;
pub mod raster;
pub mod sim;
