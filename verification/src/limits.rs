//! Magnitude limits on the fixed-point values that flow through the
//! pipeline. They keep every intermediate product of the rasterizer inside
//! `i64` and are generous for any plausible scene: positions up to tens of
//! thousands of units, attributes up to millions.

use vstd::prelude::*;

verus! {

/// Largest framebuffer side length.
pub const MAX_DIM: u32 = 16384;

/// Bound on a raw mesh record lane handed to a vertex shader.
pub const MESH_BOUND: i64 = 0x400_0000;

/// Bound on an entry of a bound rotation matrix.
pub const ROT_BOUND: i64 = 0x2_0000;

/// Bound on a component of a bound translation.
pub const TRANS_BOUND: i64 = 0x2000_0000;

/// Bound on the view-space positions and attributes a vertex shader emits.
pub const VS_BOUND: i64 = 0x4000_0000;

/// Bound on screen-space vertex coordinates; triangles that transform
/// outside it are dropped.
pub const SCREEN_BOUND: i64 = 0x10_0000_0000;

/// Bound on a reciprocal depth: the reciprocal of the smallest accepted
/// view-space depth.
pub const Z_INV_BOUND: i64 = 0x1_0000_0000;

/// Bound on a perspective-premultiplied attribute component.
pub const SCREEN_ATTR_BOUND: i64 = 0x4000_0000_0000;

} // verus!
