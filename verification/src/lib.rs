//! A small recursive ray tracer over fixed-point arithmetic.
//!
//! Every real quantity (coordinates, colors, intensities) is carried as an
//! `i64` holding `SCALE` ticks per unit. The arithmetic saturates at the
//! `i64` range and truncates toward zero, and every executable operation is
//! specified exactly against spec-level counterparts, so the whole
//! render pipeline — sphere intersection, nearest-hit resolution, shadows,
//! recursive reflection, and image encoding — is verified end to end.

pub mod canvas;
pub mod fixed;
pub mod light;
pub mod material;
pub mod render;
pub mod shapes;
pub mod vector;

pub use fixed::SCALE;
