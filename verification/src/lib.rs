//! A pseudo-3D maze renderer in the style of classic raycasting engines.
//!
//! The library models all geometry in fixed-point integer arithmetic:
//! a position or distance is measured in sub-pixel units, with
//! [`PIXEL_SCALE`] units to one pixel, and a heading is measured in
//! abstract angle units chosen by the caller.  The caller supplies ray
//! directions as fixed-point unit vectors; everything else — the maze
//! grid, the framebuffer, the ray march, the perspective projection and
//! the two renderers — is computed and verified here.

use vstd::prelude::*;

pub mod color;
pub mod framebuffer;
pub mod caster;
pub mod maze;
pub mod player;
pub mod projection;
pub mod render;
pub mod render2d;
pub mod render3d;
pub mod texture;

verus! {

/// Fixed-point scale: sub-pixel units per pixel.
pub const PIXEL_SCALE: i64 = 1000;

} // verus!
