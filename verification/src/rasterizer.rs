//! The edge-function rasterizer.
//!
//! A screen-space triangle yields three edge functions `E(x, y) = a*x +
//! b*y + c`; a pixel is covered exactly when all three are nonnegative.
//! The traversal walks the clamped bounding box in 8-pixel stamps, runs
//! the 8-wide depth test-and-set, and for each winning lane interpolates
//! the perspective-correct payload and writes its fragment key.

use vstd::prelude::*;

verus! {

use crate::depth_buffer::{depth_merge, DepthBuffer};
use crate::fixed::{
    fx_ceil, fx_ceil_spec, fx_div, fx_div_sat, fx_div_sat_spec, fx_div_spec, fx_floor,
    fx_floor_spec, fx_mul, fx_mul_spec, lemma_div_trunc_abs, lemma_fx_mul_bound, FX_ONE,
};
use crate::fragment_buffer::{FragmentBuffer, FragmentKey, FragmentSlab};
use crate::fx3::Fx3;
use crate::limits::MAX_DIM;
use crate::triangle::{screen_wf, Triangle};
use vstd::math::abs;

/// Edge-function coefficient `a` for the directed edge `v0 -> v1`.
pub open spec fn edge_a(v0: Fx3, v1: Fx3) -> int {
    v1.y - v0.y
}

/// Edge-function coefficient `b` for the directed edge `v0 -> v1`.
pub open spec fn edge_b(v0: Fx3, v1: Fx3) -> int {
    v0.x - v1.x
}

/// Edge-function constant `c` for the directed edge `v0 -> v1`.
pub open spec fn edge_c(v0: Fx3, v1: Fx3) -> int {
    fx_mul_spec(v1.x as int, v0.y as int) - fx_mul_spec(v1.y as int, v0.x as int)
}

/// The edge function of `v0 -> v1` at integer pixel coordinates.
pub open spec fn edge_at(v0: Fx3, v1: Fx3, x: int, y: int) -> int {
    edge_a(v0, v1) * x + edge_b(v0, v1) * y + edge_c(v0, v1)
}

/// Twice the triangle's signed area: the constant value of the three edge
/// functions' sum.
pub open spec fn tri_area(t: Triangle) -> int {
    edge_at(t.p1, t.p2, 1, 1) + edge_at(t.p2, t.p0, 1, 1) + edge_at(t.p0, t.p1, 1, 1)
}

/// Partition of unity for the edge functions: at every point their sum is
/// the constant `tri_area`, so the normalized barycentric weights of a
/// covered pixel sum to one.
pub proof fn lemma_edge_partition_of_unity(t: Triangle, x: int, y: int)
    ensures
        edge_at(t.p1, t.p2, x, y) + edge_at(t.p2, t.p0, x, y) + edge_at(t.p0, t.p1, x, y)
            == tri_area(t),
{
    let a0 = edge_a(t.p1, t.p2);
    let a1 = edge_a(t.p2, t.p0);
    let a2 = edge_a(t.p0, t.p1);
    let b0 = edge_b(t.p1, t.p2);
    let b1 = edge_b(t.p2, t.p0);
    let b2 = edge_b(t.p0, t.p1);
    assert(a0 + a1 + a2 == 0);
    assert(b0 + b1 + b2 == 0);
    assert(a0 * x + a1 * x + a2 * x == 0 && b0 * y + b1 * y + b2 * y == 0) by (nonlinear_arith)
        requires
            a0 + a1 + a2 == 0,
            b0 + b1 + b2 == 0,
    ;
    assert(a0 * 1 + a1 * 1 + a2 * 1 == 0 && b0 * 1 + b1 * 1 + b2 * 1 == 0);
}

/// A pixel is covered when the triangle is not degenerate and all three
/// edge functions are nonnegative there.
pub open spec fn covered(t: Triangle, x: int, y: int) -> bool {
    &&& tri_area(t) >= 1
    &&& edge_at(t.p1, t.p2, x, y) >= 0
    &&& edge_at(t.p2, t.p0, x, y) >= 0
    &&& edge_at(t.p0, t.p1, x, y) >= 0
}

/// The normalized barycentric weight of vertex 1 at a pixel.
pub open spec fn lam1(t: Triangle, x: int, y: int) -> int {
    fx_div_spec(edge_at(t.p2, t.p0, x, y), tri_area(t))
}

/// The normalized barycentric weight of vertex 2 at a pixel.
pub open spec fn lam2(t: Triangle, x: int, y: int) -> int {
    fx_div_spec(edge_at(t.p0, t.p1, x, y), tri_area(t))
}

/// The interpolated reciprocal depth at a pixel:
/// `z0 + l1*(z1 - z0) + l2*(z2 - z0)`.
pub open spec fn interp_z(t: Triangle, x: int, y: int) -> int {
    t.p0.z + fx_mul_spec(lam1(t, x, y), t.p1.z - t.p0.z) + fx_mul_spec(
        lam2(t, x, y),
        t.p2.z - t.p0.z,
    )
}

/// One lane of the premultiplied payload interpolation:
/// `f0 + l1*(f1 - f0) + l2*(f2 - f0)`.
pub open spec fn interp_pre_lane(f0: int, f1: int, f2: int, l1: int, l2: int) -> int {
    f0 + fx_mul_spec(l1, f1 - f0) + fx_mul_spec(l2, f2 - f0)
}

/// The perspective-correct payload at a covered pixel: the interpolated
/// premultiplied payload divided by the interpolated reciprocal depth,
/// saturating at the representable range.
pub open spec fn interp_attr(t: Triangle, x: int, y: int) -> Fx3 {
    let l1 = lam1(t, x, y);
    let l2 = lam2(t, x, y);
    let z = interp_z(t, x, y);
    Fx3 {
        x: fx_div_sat_spec(interp_pre_lane(t.a0.x as int, t.a1.x as int, t.a2.x as int, l1, l2), z) as i64,
        y: fx_div_sat_spec(interp_pre_lane(t.a0.y as int, t.a1.y as int, t.a2.y as int, l1, l2), z) as i64,
        z: fx_div_sat_spec(interp_pre_lane(t.a0.z as int, t.a1.z as int, t.a2.z as int, l1, l2), z) as i64,
    }
}

/// The least of three values.
pub open spec fn min3(a: int, b: int, c: int) -> int {
    vstd::math::min(vstd::math::min(a, b), c)
}

/// The greatest of three values.
pub open spec fn max3(a: int, b: int, c: int) -> int {
    vstd::math::max(vstd::math::max(a, b), c)
}

/// The bounding box's left column: the floor of the least vertex `x`,
/// clamped to the viewport.
pub open spec fn bb_min_x(t: Triangle) -> int {
    fx_floor_spec(vstd::math::max(min3(t.p0.x as int, t.p1.x as int, t.p2.x as int), 0))
}

pub open spec fn bb_min_y(t: Triangle) -> int {
    fx_floor_spec(vstd::math::max(min3(t.p0.y as int, t.p1.y as int, t.p2.y as int), 0))
}

/// The bounding box's right fence: the ceiling of the greatest vertex
/// `x`, clamped to the viewport width.
pub open spec fn bb_max_x(t: Triangle, w: int) -> int {
    vstd::math::max(
        fx_ceil_spec(vstd::math::min(max3(t.p0.x as int, t.p1.x as int, t.p2.x as int), w * 65536)),
        0,
    )
}

pub open spec fn bb_max_y(t: Triangle, h: int) -> int {
    vstd::math::max(
        fx_ceil_spec(vstd::math::min(max3(t.p0.y as int, t.p1.y as int, t.p2.y as int), h * 65536)),
        0,
    )
}

/// The rasterizer's candidate at a pixel: the interpolated reciprocal
/// depth where the pixel lies in the clamped bounding box and is covered,
/// nothing otherwise.
pub open spec fn cand(t: Triangle, w: int, h: int, x: int, y: int) -> Option<i64> {
    if bb_min_x(t) <= x < bb_max_x(t, w) && bb_min_y(t) <= y < bb_max_y(t, h) && covered(t, x, y) {
        Some(interp_z(t, x, y) as i64)
    } else {
        None
    }
}

/// The candidate as a depth-test operand: absent candidates lose against
/// every cell.
pub open spec fn cand_val(t: Triangle, w: int, h: int, x: int, y: int) -> i64 {
    match cand(t, w, h, x, y) {
        Some(d) => d,
        None => i64::MIN,
    }
}

/// What rasterizing one triangle does at one pixel: the depth cell merges
/// with the candidate, and on a strict depth win the fragment slot points
/// at a slab entry holding the interpolated payload; otherwise both are
/// untouched.
pub open spec fn raster_pixel_post(
    t: Triangle,
    sid: int,
    w: int,
    h: int,
    x: int,
    y: int,
    d_old: i64,
    d_new: i64,
    f_old: Option<FragmentKey>,
    f_new: Option<FragmentKey>,
    slab: Seq<Fx3>,
) -> bool {
    &&& d_new == depth_merge(d_old, cand_val(t, w, h, x, y))
    &&& match cand(t, w, h, x, y) {
        Some(d) => if d > d_old {
            &&& f_new is Some
            &&& f_new.unwrap().shader_index == sid
            &&& f_new.unwrap().fragment_key < slab.len()
            &&& slab[f_new.unwrap().fragment_key as int] == interp_attr(t, x, y)
        } else {
            f_new == f_old
        },
        None => f_new == f_old,
    }
}

/// Every fragment key in the buffer addresses a stored payload.
pub open spec fn frag_keys_wf(frags: Seq<Option<FragmentKey>>, slab: Seq<Fx3>) -> bool {
    forall|i: int|
        0 <= i < frags.len() && frags[i] is Some ==> (#[trigger] frags[i]).unwrap().fragment_key
            < slab.len()
}

/// The axis-aligned bounding box of a screen triangle, clamped to the
/// viewport.
#[derive(Clone, Copy, PartialEq, Eq, Structural, Debug)]
pub struct RasterBoundingBox {
    pub min_x: u32,
    pub min_y: u32,
    pub max_x: u32,
    pub max_y: u32,
}

impl RasterBoundingBox {
    pub fn min_x(&self) -> (r: u32)
        ensures
            r == self.min_x,
    {
        self.min_x
    }

    pub fn min_y(&self) -> (r: u32)
        ensures
            r == self.min_y,
    {
        self.min_y
    }

    pub fn max_x(&self) -> (r: u32)
        ensures
            r == self.max_x,
    {
        self.max_x
    }

    pub fn max_y(&self) -> (r: u32)
        ensures
            r == self.max_y,
    {
        self.max_y
    }

    pub fn prepare(self) -> (r: [u32; 4])
        ensures
            r@[0] == self.min_x && r@[1] == self.min_y && r@[2] == self.max_x && r@[3]
                == self.max_y,
    {
        [self.min_x, self.min_y, self.max_x, self.max_y]
    }
}

fn min3_exec(a: i64, b: i64, c: i64) -> (r: i64)
    ensures
        r == min3(a as int, b as int, c as int),
{
    let m = if a < b {
        a
    } else {
        b
    };
    if m < c {
        m
    } else {
        c
    }
}

fn max3_exec(a: i64, b: i64, c: i64) -> (r: i64)
    ensures
        r == max3(a as int, b as int, c as int),
{
    let m = if a > b {
        a
    } else {
        b
    };
    if m > c {
        m
    } else {
        c
    }
}

/// The clamped raster bounding box of a screen triangle.
pub fn calculate_raster_bb(t: &Triangle, width: u32, height: u32) -> (r: RasterBoundingBox)
    requires
        screen_wf(*t),
        1 <= width <= MAX_DIM,
        1 <= height <= MAX_DIM,
    ensures
        r.min_x == bb_min_x(*t),
        r.min_y == bb_min_y(*t),
        r.max_x == bb_max_x(*t, width as int),
        r.max_y == bb_max_y(*t, height as int),
        r.max_x <= width,
        r.max_y <= height,
{
    let min_xf = {
        let m = min3_exec(t.p0.x, t.p1.x, t.p2.x);
        if m > 0 {
            m
        } else {
            0
        }
    };
    let min_yf = {
        let m = min3_exec(t.p0.y, t.p1.y, t.p2.y);
        if m > 0 {
            m
        } else {
            0
        }
    };
    let wf = (width as i64) * FX_ONE;
    let hf = (height as i64) * FX_ONE;
    let max_xf = {
        let m = max3_exec(t.p0.x, t.p1.x, t.p2.x);
        if m < wf {
            m
        } else {
            wf
        }
    };
    let max_yf = {
        let m = max3_exec(t.p0.y, t.p1.y, t.p2.y);
        if m < hf {
            m
        } else {
            hf
        }
    };
    proof {
        lemma_floor_range(min_xf as int, MAX_DIM as int);
        lemma_floor_range(min_yf as int, MAX_DIM as int);
        lemma_ceil_range(max_xf as int, width as int);
        lemma_ceil_range(max_yf as int, height as int);
    }
    let cx = fx_ceil(max_xf);
    let cy = fx_ceil(max_yf);
    RasterBoundingBox {
        min_x: fx_floor(min_xf) as u32,
        min_y: fx_floor(min_yf) as u32,
        max_x: (if cx > 0 { cx } else { 0 }) as u32,
        max_y: (if cy > 0 { cy } else { 0 }) as u32,
    }
}

/// The floor of a clamped nonnegative coordinate lies in the viewport.
proof fn lemma_floor_range(v: int, w: int)
    requires
        0 <= v,
        0 <= w,
        v <= 0x8000_0000_0000,
    ensures
        0 <= fx_floor_spec(v) <= v,
{
    vstd::arithmetic::div_mod::lemma_div_pos_is_pos(v, FX_ONE as int);
    vstd::arithmetic::div_mod::lemma_div_nonincreasing(v, FX_ONE as int);
}

/// The ceiling of a coordinate clamped to the viewport stays within it.
proof fn lemma_ceil_range(v: int, w: int)
    requires
        v <= w * 65536,
        0 <= w <= MAX_DIM,
        abs(v) <= 0x8000_0000_0000,
    ensures
        fx_ceil_spec(v) <= w,
        v >= 0 ==> fx_ceil_spec(v) >= 0,
{
    let f = FX_ONE as int;
    assert(fx_ceil_spec(v) == -((-v) / f));
    assert((-v) / f >= -w) by {
        assert(-v >= -(w * 65536));
        assert((-(w * 65536)) / f == -w) by {
            vstd::arithmetic::div_mod::lemma_fundamental_div_mod_converse(
                -(w * 65536),
                f,
                -w,
                0,
            );
        }
        vstd::arithmetic::div_mod::lemma_div_is_ordered(-(w * 65536), -v, f);
    }
    if v >= 0 {
        assert((-v) / f <= 0) by {
            if v > 0 {
                vstd::arithmetic::div_mod::lemma_div_pos_is_pos(v, f);
                lemma_div_trunc_abs(-v, f);
            }
        }
    }
}


/// Per-triangle setup the traversal consumes: the three edge functions'
/// coefficients, the area constant, and the depth and payload deltas.
pub struct TriSetup {
    pub a0: i64,
    pub b0: i64,
    pub c0: i64,
    pub a1: i64,
    pub b1: i64,
    pub c1: i64,
    pub a2: i64,
    pub b2: i64,
    pub c2: i64,
    pub area: i64,
    pub z0: i64,
    pub dz1: i64,
    pub dz2: i64,
    pub f0: Fx3,
    pub df1: Fx3,
    pub df2: Fx3,
}

/// The setup fields are exactly the spec-level quantities of `t`, and `t`
/// is a well-formed screen triangle.
pub open spec fn setup_wf(s: TriSetup, t: Triangle) -> bool {
    &&& screen_wf(t)
    &&& s.a0 == edge_a(t.p1, t.p2) && s.b0 == edge_b(t.p1, t.p2) && s.c0 == edge_c(t.p1, t.p2)
    &&& s.a1 == edge_a(t.p2, t.p0) && s.b1 == edge_b(t.p2, t.p0) && s.c1 == edge_c(t.p2, t.p0)
    &&& s.a2 == edge_a(t.p0, t.p1) && s.b2 == edge_b(t.p0, t.p1) && s.c2 == edge_c(t.p0, t.p1)
    &&& s.area == tri_area(t)
    &&& s.z0 == t.p0.z && s.dz1 == t.p1.z - t.p0.z && s.dz2 == t.p2.z - t.p0.z
    &&& s.f0 == t.a0
    &&& s.df1.x == t.a1.x - t.a0.x && s.df1.y == t.a1.y - t.a0.y && s.df1.z == t.a1.z - t.a0.z
    &&& s.df2.x == t.a2.x - t.a0.x && s.df2.y == t.a2.y - t.a0.y && s.df2.z == t.a2.z - t.a0.z
}

/// The edge constant of one directed edge, with its magnitude bound.
fn edge_c_exec(v0: &Fx3, v1: &Fx3) -> (r: i64)
    requires
        abs(v0.x as int) <= 0x10_0000_0000,
        abs(v0.y as int) <= 0x10_0000_0000,
        abs(v1.x as int) <= 0x10_0000_0000,
        abs(v1.y as int) <= 0x10_0000_0000,
    ensures
        r == edge_c(*v0, *v1),
        abs(r as int) <= 0x200_0000_0000_0000,
{
    proof {
        lemma_fx_mul_bound(v1.x as int, v0.y as int, 0x10_0000_0000, 0x10_0000_0000);
        lemma_fx_mul_bound(v1.y as int, v0.x as int, 0x10_0000_0000, 0x10_0000_0000);
    }
    fx_mul(v1.x, v0.y) - fx_mul(v1.y, v0.x)
}

/// Magnitude bounds on the setup fields, implied by `screen_wf`.
pub open spec fn setup_bounds(s: TriSetup) -> bool {
    &&& abs(s.a0 as int) <= 0x20_0000_0000 && abs(s.b0 as int) <= 0x20_0000_0000
    &&& abs(s.a1 as int) <= 0x20_0000_0000 && abs(s.b1 as int) <= 0x20_0000_0000
    &&& abs(s.a2 as int) <= 0x20_0000_0000 && abs(s.b2 as int) <= 0x20_0000_0000
    &&& abs(s.c0 as int) <= 0x200_0000_0000_0000
    &&& abs(s.c1 as int) <= 0x200_0000_0000_0000
    &&& abs(s.c2 as int) <= 0x200_0000_0000_0000
    &&& abs(s.area as int) <= 0x1000_0000_0000_0000
    &&& 0 <= s.z0 <= 0x1_0000_0000
    &&& abs(s.dz1 as int) <= 0x2_0000_0000 && abs(s.dz2 as int) <= 0x2_0000_0000
    &&& abs(s.f0.x as int) <= 0x4000_0000_0000 && abs(s.f0.y as int) <= 0x4000_0000_0000
        && abs(s.f0.z as int) <= 0x4000_0000_0000
    &&& abs(s.df1.x as int) <= 0x8000_0000_0000 && abs(s.df1.y as int) <= 0x8000_0000_0000
        && abs(s.df1.z as int) <= 0x8000_0000_0000
    &&& abs(s.df2.x as int) <= 0x8000_0000_0000 && abs(s.df2.y as int) <= 0x8000_0000_0000
        && abs(s.df2.z as int) <= 0x8000_0000_0000
}

/// Builds the traversal setup for one screen triangle.
fn make_setup(t: &Triangle) -> (s: TriSetup)
    requires
        screen_wf(*t),
    ensures
        setup_wf(s, *t),
        setup_bounds(s),
{
    let c0 = edge_c_exec(&t.p1, &t.p2);
    let c1 = edge_c_exec(&t.p2, &t.p0);
    let c2 = edge_c_exec(&t.p0, &t.p1);
    let a0 = t.p2.y - t.p1.y;
    let b0 = t.p1.x - t.p2.x;
    let a1 = t.p0.y - t.p2.y;
    let b1 = t.p2.x - t.p0.x;
    let a2 = t.p1.y - t.p0.y;
    let b2 = t.p0.x - t.p1.x;
    let area = (a0 + b0 + c0) + (a1 + b1 + c1) + (a2 + b2 + c2);
    TriSetup {
        a0,
        b0,
        c0,
        a1,
        b1,
        c1,
        a2,
        b2,
        c2,
        area,
        z0: t.p0.z,
        dz1: t.p1.z - t.p0.z,
        dz2: t.p2.z - t.p0.z,
        f0: t.a0,
        df1: Fx3 { x: t.a1.x - t.a0.x, y: t.a1.y - t.a0.y, z: t.a1.z - t.a0.z },
        df2: Fx3 { x: t.a2.x - t.a0.x, y: t.a2.y - t.a0.y, z: t.a2.z - t.a0.z },
    }
}

/// A nonnegative edge value of a covered pixel yields a barycentric
/// weight in the unit interval.
proof fn lemma_lam_range(e: int, area: int)
    requires
        0 <= e <= area,
        1 <= area,
    ensures
        0 <= fx_div_spec(e, area) <= 65536,
        fx_div_spec(e, area) == (e * 65536) / area,
{
    lemma_div_trunc_abs(e * 65536, area);
    assert(e * 65536 >= 0) by (nonlinear_arith)
        requires
            e >= 0,
    ;
    assert(e * 65536 <= area * 65536) by (nonlinear_arith)
        requires
            e <= area,
    ;
    vstd::arithmetic::div_mod::lemma_div_is_ordered(e * 65536, area * 65536, area);
    assert((area * 65536) / area == 65536) by {
        vstd::arithmetic::div_mod::lemma_fundamental_div_mod_converse(area * 65536, area, 65536, 0);
    }
    vstd::arithmetic::div_mod::lemma_div_pos_is_pos(e * 65536, area);
}

/// The interpolated reciprocal depth of a covered pixel stays within the
/// stamp arithmetic's range, and its weights lie in the unit interval.
proof fn lemma_interp_z_range(t: Triangle, x: int, y: int)
    requires
        screen_wf(t),
        covered(t, x, y),
    ensures
        abs(interp_z(t, x, y)) <= 0x10_0000_0000,
        0 <= lam1(t, x, y) <= 65536,
        0 <= lam2(t, x, y) <= 65536,
{
    lemma_edge_partition_of_unity(t, x, y);
    lemma_lam_range(edge_at(t.p2, t.p0, x, y), tri_area(t));
    lemma_lam_range(edge_at(t.p0, t.p1, x, y), tri_area(t));
    lemma_fx_mul_bound(lam1(t, x, y), t.p1.z - t.p0.z, 65536, 0x2_0000_0000);
    lemma_fx_mul_bound(lam2(t, x, y), t.p2.z - t.p0.z, 65536, 0x2_0000_0000);
}

/// One stamp lane: the candidate reciprocal depth at pixel `(px, py)` and
/// the two barycentric weights, or the losing sentinel for a masked-off
/// or uncovered lane.
fn lane_cand(s: &TriSetup, Ghost(t): Ghost<Triangle>, px: u32, py: u32, active: bool) -> (r: (
    i64,
    i64,
    i64,
))
    requires
        setup_wf(*s, t),
        setup_bounds(*s),
        s.area >= 1,
        px <= 0x1_0008,
        py <= 0x8000,
    ensures
        active && covered(t, px as int, py as int) ==> {
            &&& r.0 as int == interp_z(t, px as int, py as int)
            &&& r.1 == lam1(t, px as int, py as int)
            &&& r.2 == lam2(t, px as int, py as int)
            &&& 0 <= r.1 <= 65536 && 0 <= r.2 <= 65536
        },
        !(active && covered(t, px as int, py as int)) ==> r.0 == i64::MIN,
{
    if !active {
        return (i64::MIN, 0, 0);
    }
    let x = px as i64;
    let y = py as i64;
    proof {
        crate::fixed::lemma_abs_mul(s.a0 as int, x as int, 0x20_0000_0000, 0x1_0008);
        crate::fixed::lemma_abs_mul(s.b0 as int, y as int, 0x20_0000_0000, 0x1_0008);
        crate::fixed::lemma_abs_mul(s.a1 as int, x as int, 0x20_0000_0000, 0x1_0008);
        crate::fixed::lemma_abs_mul(s.b1 as int, y as int, 0x20_0000_0000, 0x1_0008);
        crate::fixed::lemma_abs_mul(s.a2 as int, x as int, 0x20_0000_0000, 0x1_0008);
        crate::fixed::lemma_abs_mul(s.b2 as int, y as int, 0x20_0000_0000, 0x1_0008);
    }
    let e0 = s.a0 * x + s.b0 * y + s.c0;
    let e1 = s.a1 * x + s.b1 * y + s.c1;
    let e2 = s.a2 * x + s.b2 * y + s.c2;
    proof {
        assert(e0 == edge_at(t.p1, t.p2, px as int, py as int));
        assert(e1 == edge_at(t.p2, t.p0, px as int, py as int));
        assert(e2 == edge_at(t.p0, t.p1, px as int, py as int));
    }
    if e0 >= 0 && e1 >= 0 && e2 >= 0 {
        proof {
            lemma_edge_partition_of_unity(t, px as int, py as int);
            lemma_lam_range(e1 as int, s.area as int);
            lemma_lam_range(e2 as int, s.area as int);
        }
        let li1 = fx_div(e1, s.area);
        let li2 = fx_div(e2, s.area);
        proof {
            lemma_fx_mul_bound(li1 as int, s.dz1 as int, 65536, 0x2_0000_0000);
            lemma_fx_mul_bound(li2 as int, s.dz2 as int, 65536, 0x2_0000_0000);
        }
        let d = s.z0 + fx_mul(li1, s.dz1) + fx_mul(li2, s.dz2);
        (d, li1, li2)
    } else {
        (i64::MIN, 0, 0)
    }
}


/// One 8-pixel stamp at `(x .. x+8, y)`: evaluates the edge functions per
/// lane, runs the 8-wide depth test-and-set, and commits a fragment for
/// every winning lane. Lanes at or past `lim` are masked off with the
/// losing sentinel.
#[verifier::loop_isolation(false)]
#[verifier::rlimit(60)]
fn raster_stamp(
    depth: &mut DepthBuffer,
    frag: &mut FragmentBuffer,
    slab: &mut FragmentSlab,
    s: &TriSetup,
    Ghost(t): Ghost<Triangle>,
    fs_index: usize,
    x: u32,
    y: u32,
    lim: u32,
    width: u32,
    height: u32,
)
    requires
        setup_wf(*s, t),
        setup_bounds(*s),
        s.area >= 1,
        1 <= width <= MAX_DIM,
        1 <= height <= MAX_DIM,
        old(depth).depth_buffer@.len() == width as int * height as int + 8,
        old(frag).fragments@.len() == width as int * height as int,
        forall|i: int|
            0 <= i < old(depth).depth_buffer@.len() ==> old(depth).depth_buffer@[i] >= 0,
        frag_keys_wf(old(frag).fragments@, old(slab).entries@),
        bb_min_x(t) <= x as int,
        lim as int == bb_max_x(t, width as int),
        x < lim,
        lim <= width,
        bb_min_y(t) <= y as int,
        (y as int) < bb_max_y(t, height as int),
        bb_max_y(t, height as int) <= height,
    ensures
        final(depth).depth_buffer@.len() == old(depth).depth_buffer@.len(),
        final(frag).fragments@.len() == old(frag).fragments@.len(),
        old(slab).entries@.len() <= final(slab).entries@.len(),
        forall|j: int|
            0 <= j < old(slab).entries@.len() ==> final(slab).entries@[j] == old(
                slab,
            ).entries@[j],
        forall|l: int|
            0 <= l < 8 && x + l < lim ==> #[trigger] raster_pixel_post(
                t,
                fs_index as int,
                width as int,
                height as int,
                x + l,
                y as int,
                old(depth).depth_buffer@[y * width + x + l],
                final(depth).depth_buffer@[y * width + x + l],
                old(frag).fragments@[y * width + x + l],
                final(frag).fragments@[y * width + x + l],
                final(slab).entries@,
            ),
        forall|i: int|
            0 <= i < old(depth).depth_buffer@.len() && !(y * width + x <= i < y * width + x + 8)
                ==> final(depth).depth_buffer@[i] == old(depth).depth_buffer@[i],
        forall|l: int|
            0 <= l < 8 && x + l >= lim ==> final(depth).depth_buffer@[#[trigger] (y * width + x
                + l)] == old(depth).depth_buffer@[y * width + x + l],
        forall|i: int|
            0 <= i < old(frag).fragments@.len() && !(y * width + x <= i < y * width + x + 8)
                ==> final(frag).fragments@[i] == old(frag).fragments@[i],
        forall|l: int|
            0 <= l < 8 && x + l >= lim && y * width + x + l < old(frag).fragments@.len()
                ==> final(frag).fragments@[#[trigger] (y * width + x + l)] == old(
                frag,
            ).fragments@[y * width + x + l],
        forall|i: int|
            0 <= i < final(depth).depth_buffer@.len() ==> final(depth).depth_buffer@[i] >= 0,
        frag_keys_wf(final(frag).fragments@, final(slab).entries@),
{
    proof {
        assert((y as int) * (width as int) + (x as int) + 8 <= width as int * height as int + 8
            && width as int * height as int <= 0x4000_0000) by (nonlinear_arith)
            requires
                0 <= y as int <= height as int - 1,
                0 <= x as int <= width as int - 1,
                1 <= width as int <= 0x8000,
                1 <= height as int <= 0x8000,
        ;
    }
    let idx: usize = (y as usize) * (width as usize) + (x as usize);
    let r0 = lane_cand(s, Ghost(t), x, y, true);
    let r1 = lane_cand(s, Ghost(t), x + 1, y, x + 1 < lim);
    let r2 = lane_cand(s, Ghost(t), x + 2, y, x + 2 < lim);
    let r3 = lane_cand(s, Ghost(t), x + 3, y, x + 3 < lim);
    let r4 = lane_cand(s, Ghost(t), x + 4, y, x + 4 < lim);
    let r5 = lane_cand(s, Ghost(t), x + 5, y, x + 5 < lim);
    let r6 = lane_cand(s, Ghost(t), x + 6, y, x + 6 < lim);
    let r7 = lane_cand(s, Ghost(t), x + 7, y, x + 7 < lim);
    let depths: [i64; 8] = [r0.0, r1.0, r2.0, r3.0, r4.0, r5.0, r6.0, r7.0];
    let l1s: [i64; 8] = [r0.1, r1.1, r2.1, r3.1, r4.1, r5.1, r6.1, r7.1];
    let l2s: [i64; 8] = [r0.2, r1.2, r2.2, r3.2, r4.2, r5.2, r6.2, r7.2];
    proof {
        assert forall|l: int| 0 <= l < 8 && x + l < lim implies #[trigger] depths@[l] == cand_val(
            t,
            width as int,
            height as int,
            x + l,
            y as int,
        ) by {
            if covered(t, x + l, y as int) {
                lemma_interp_z_range(t, x + l, y as int);
            }
        }
        assert forall|l: int|
            0 <= l < 8 && x + l < lim && covered(t, x + l, y as int) implies {
            &&& depths@[l] as int == interp_z(t, x + l, y as int)
            &&& l1s@[l] == lam1(t, x + l, y as int)
            &&& l2s@[l] == lam2(t, x + l, y as int)
            &&& 0 <= l1s@[l] <= 65536 && 0 <= l2s@[l] <= 65536
        } by {}
        assert forall|l: int| 0 <= l < 8 && x + l >= lim implies #[trigger] depths@[l] == i64::MIN by {}
    }
    let ghost pre_depth = depth.depth_buffer@;
    let ghost pre_frag = frag.fragments@;
    let ghost pre_slab = slab.entries@;
    let res = depth.try_set_depth_simd(idx, &depths);
    proof {
        assert forall|l: int| 0 <= l < 8 && x + l < lim implies #[trigger] final_depth_ok(
            t,
            width as int,
            height as int,
            x + l,
            y as int,
            pre_depth[idx + l],
            depth.depth_buffer@[idx + l],
        ) by {
            assert(depth.depth_buffer@[idx + l] == depth_merge(pre_depth[idx + l], depths@[l]));
        }
    }
    let mask: [bool; 8] = match res {
        Some(m) => m,
        None => [false, false, false, false, false, false, false, false],
    };
    proof {
        assert forall|l: int| 0 <= l < 8 implies mask@[l] == (depths@[l] > pre_depth[idx + l])
            by {
            if res is None {
                assert(!(depths@[l] > pre_depth[idx + l]));
            }
        }
    }
    let mut l: usize = 0;
    while l < 8
        invariant
            0 <= l <= 8,
            frag.fragments@.len() == pre_frag.len(),
            pre_slab.len() <= slab.entries@.len(),
            forall|j: int| 0 <= j < pre_slab.len() ==> slab.entries@[j] == pre_slab[j],
            forall|k: int|
                0 <= k < l && x + k < lim ==> #[trigger] raster_pixel_post(
                    t,
                    fs_index as int,
                    width as int,
                    height as int,
                    x + k,
                    y as int,
                    pre_depth[idx + k],
                    depth.depth_buffer@[idx + k],
                    pre_frag[idx + k],
                    frag.fragments@[idx + k],
                    slab.entries@,
                ),
            forall|i: int|
                0 <= i < pre_frag.len() && !(idx <= i < idx + 8) ==> frag.fragments@[i]
                    == pre_frag[i],
            forall|k: int|
                0 <= k < 8 && idx + k < pre_frag.len() && (k >= l || x + k >= lim)
                    ==> frag.fragments@[#[trigger] (idx + k)] == pre_frag[idx + k],
            frag_keys_wf(frag.fragments@, slab.entries@),
        decreases 8 - l,
    {
        let ghost loop_frag = frag.fragments@;
        let ghost loop_slab = slab.entries@;
        if mask[l] {
            proof {
                assert(depths@[l as int] > pre_depth[idx + l]);
                assert(pre_depth[idx + l] >= 0);
                assert(x + l < lim && covered(t, x + l as int, y as int)) by {
                    if !(x + l < lim && covered(t, x + l as int, y as int)) {
                        assert(depths@[l as int] == i64::MIN);
                    }
                }
                lemma_interp_z_range(t, x + l as int, y as int);
                lemma_fx_mul_bound(
                    l1s@[l as int] as int,
                    s.df1.x as int,
                    65536,
                    0x8000_0000_0000,
                );
                lemma_fx_mul_bound(
                    l1s@[l as int] as int,
                    s.df1.y as int,
                    65536,
                    0x8000_0000_0000,
                );
                lemma_fx_mul_bound(
                    l1s@[l as int] as int,
                    s.df1.z as int,
                    65536,
                    0x8000_0000_0000,
                );
                lemma_fx_mul_bound(
                    l2s@[l as int] as int,
                    s.df2.x as int,
                    65536,
                    0x8000_0000_0000,
                );
                lemma_fx_mul_bound(
                    l2s@[l as int] as int,
                    s.df2.y as int,
                    65536,
                    0x8000_0000_0000,
                );
                lemma_fx_mul_bound(
                    l2s@[l as int] as int,
                    s.df2.z as int,
                    65536,
                    0x8000_0000_0000,
                );
            }
            let d = depths[l];
            let li1 = l1s[l];
            let li2 = l2s[l];
            let pre_x = s.f0.x + fx_mul(li1, s.df1.x) + fx_mul(li2, s.df2.x);
            let pre_y = s.f0.y + fx_mul(li1, s.df1.y) + fx_mul(li2, s.df2.y);
            let pre_z = s.f0.z + fx_mul(li1, s.df1.z) + fx_mul(li2, s.df2.z);
            let payload = Fx3 {
                x: fx_div_sat(pre_x, d),
                y: fx_div_sat(pre_y, d),
                z: fx_div_sat(pre_z, d),
            };
            proof {
                assert(payload == interp_attr(t, x + l as int, y as int));
            }
            proof {
                assert((y as int) * (width as int) + (x as int) + (l as int) < width as int
                    * height as int) by (nonlinear_arith)
                    requires
                        0 <= y as int <= height as int - 1,
                        0 <= (x as int) + (l as int) <= width as int - 1,
                        1 <= width as int,
                        1 <= height as int,
                ;
            }
            let k = slab.insert(payload);
            frag.set_fragment(idx + l, FragmentKey { shader_index: fs_index, fragment_key: k });
            proof {
                assert forall|kk: int|
                    0 <= kk < l && x + kk < lim implies #[trigger] raster_pixel_post(
                    t,
                    fs_index as int,
                    width as int,
                    height as int,
                    x + kk,
                    y as int,
                    pre_depth[idx + kk],
                    depth.depth_buffer@[idx + kk],
                    pre_frag[idx + kk],
                    frag.fragments@[idx + kk],
                    slab.entries@,
                ) by {
                    assert(raster_pixel_post(
                        t,
                        fs_index as int,
                        width as int,
                        height as int,
                        x + kk,
                        y as int,
                        pre_depth[idx + kk],
                        depth.depth_buffer@[idx + kk],
                        pre_frag[idx + kk],
                        loop_frag[idx + kk],
                        loop_slab,
                    ));
                    assert(frag.fragments@[idx + kk] == loop_frag[idx + kk]);
                }
                assert(cand(t, width as int, height as int, x + l as int, y as int) == Some(
                    depths@[l as int],
                ));
                assert(raster_pixel_post(
                    t,
                    fs_index as int,
                    width as int,
                    height as int,
                    x + l as int,
                    y as int,
                    pre_depth[idx + l],
                    depth.depth_buffer@[idx + l],
                    pre_frag[idx + l],
                    frag.fragments@[idx + l],
                    slab.entries@,
                ));
            }
        } else {
            proof {
                if x + l < lim {
                    assert((y as int) * (width as int) + (x as int) + (l as int) < width as int
                        * height as int) by (nonlinear_arith)
                        requires
                            0 <= y as int <= height as int - 1,
                            0 <= (x as int) + (l as int) <= width as int - 1,
                            1 <= width as int,
                            1 <= height as int,
                    ;
                    assert(raster_pixel_post(
                        t,
                        fs_index as int,
                        width as int,
                        height as int,
                        x + l as int,
                        y as int,
                        pre_depth[idx + l],
                        depth.depth_buffer@[idx + l],
                        pre_frag[idx + l],
                        frag.fragments@[idx + l],
                        slab.entries@,
                    ));
                }
            }
        }
        l = l + 1;
    }
}

/// The depth part of the per-pixel contract.
pub open spec fn final_depth_ok(
    t: Triangle,
    w: int,
    h: int,
    x: int,
    y: int,
    d_old: i64,
    d_new: i64,
) -> bool {
    d_new == depth_merge(d_old, cand_val(t, w, h, x, y))
}


/// Pixels of distinct rows keep their scan order in the flat buffer.
proof fn lemma_row_order(w: int, py_a: int, px_a: int, py_b: int, px_b: int)
    requires
        1 <= w,
        py_a < py_b,
        0 <= px_a < w,
        0 <= px_b,
    ensures
        py_a * w + px_a < py_b * w + px_b,
{
    assert(py_a * w + px_a < py_b * w + px_b) by (nonlinear_arith)
        requires
            1 <= w,
            py_a < py_b,
            0 <= px_a < w,
            0 <= px_b,
    ;
}

/// A pixel's flat index lies in the buffer.
proof fn lemma_pix_index(w: int, h: int, px: int, py: int)
    requires
        1 <= w,
        0 <= px < w,
        0 <= py < h,
    ensures
        0 <= py * w + px < w * h,
{
    assert(0 <= py * w + px < w * h) by (nonlinear_arith)
        requires
            1 <= w,
            0 <= px < w,
            0 <= py < h,
    ;
}

/// Rasterizes one screen-space triangle into the depth and fragment
/// buffers, tagging every winning pixel with `fs_index`: at each viewport
/// pixel the depth cell merges with the triangle's candidate reciprocal
/// depth, and a strict depth win stores the perspective-correct payload in
/// the slab and its key in the fragment slot.
#[verifier::loop_isolation(false)]
#[verifier::rlimit(100)]
pub fn rasterize_triangle(
    depth: &mut DepthBuffer,
    frag: &mut FragmentBuffer,
    slab: &mut FragmentSlab,
    t: &Triangle,
    fs_index: usize,
    width: u32,
    height: u32,
)
    requires
        screen_wf(*t),
        1 <= width <= MAX_DIM,
        1 <= height <= MAX_DIM,
        old(depth).depth_buffer@.len() == width as int * height as int + 8,
        old(frag).fragments@.len() == width as int * height as int,
        forall|i: int|
            0 <= i < old(depth).depth_buffer@.len() ==> old(depth).depth_buffer@[i] >= 0,
        frag_keys_wf(old(frag).fragments@, old(slab).entries@),
    ensures
        final(depth).depth_buffer@.len() == old(depth).depth_buffer@.len(),
        final(frag).fragments@.len() == old(frag).fragments@.len(),
        old(slab).entries@.len() <= final(slab).entries@.len(),
        forall|j: int|
            0 <= j < old(slab).entries@.len() ==> final(slab).entries@[j] == old(
                slab,
            ).entries@[j],
        forall|i: int|
            0 <= i < final(depth).depth_buffer@.len() ==> final(depth).depth_buffer@[i] >= 0,
        frag_keys_wf(final(frag).fragments@, final(slab).entries@),
        forall|px: int, py: int|
            0 <= px < width && 0 <= py < height ==> #[trigger] raster_pixel_post(
                *t,
                fs_index as int,
                width as int,
                height as int,
                px,
                py,
                old(depth).depth_buffer@[py * width + px],
                final(depth).depth_buffer@[py * width + px],
                old(frag).fragments@[py * width + px],
                final(frag).fragments@[py * width + px],
                final(slab).entries@,
            ),
        forall|i: int|
            width as int * height as int <= i < old(depth).depth_buffer@.len()
                ==> final(depth).depth_buffer@[i] == old(depth).depth_buffer@[i],
{
    let ghost w = width as int;
    let ghost h = height as int;
    let ghost pre_depth = depth.depth_buffer@;
    let ghost pre_frag = frag.fragments@;
    let ghost pre_slab = slab.entries@;
    let setup = make_setup(t);
    if setup.area < 1 {
        proof {
            assert forall|px: int, py: int| 0 <= px < width && 0 <= py < height implies
                #[trigger] raster_pixel_post(
                *t,
                fs_index as int,
                w,
                h,
                px,
                py,
                depth.depth_buffer@[py * w + px],
                depth.depth_buffer@[py * w + px],
                frag.fragments@[py * w + px],
                frag.fragments@[py * w + px],
                slab.entries@,
            ) by {
                assert(cand(*t, w, h, px, py) is None);
            }
        }
        return;
    }
    let bb = calculate_raster_bb(t, width, height);
    let mut y: u32 = bb.min_y;
    while y < bb.max_y
        invariant
            bb.min_y <= y,
            y <= bb.max_y || y == bb.min_y,
            depth.depth_buffer@.len() == pre_depth.len(),
            frag.fragments@.len() == pre_frag.len(),
            pre_slab.len() <= slab.entries@.len(),
            forall|j: int| 0 <= j < pre_slab.len() ==> slab.entries@[j] == pre_slab[j],
            forall|i: int| 0 <= i < depth.depth_buffer@.len() ==> depth.depth_buffer@[i] >= 0,
            frag_keys_wf(frag.fragments@, slab.entries@),
            forall|px: int, py: int|
                0 <= px < width && bb.min_y <= py < y ==> #[trigger] raster_pixel_post(
                    *t,
                    fs_index as int,
                    w,
                    h,
                    px,
                    py,
                    pre_depth[py * w + px],
                    depth.depth_buffer@[py * w + px],
                    pre_frag[py * w + px],
                    frag.fragments@[py * w + px],
                    slab.entries@,
                ),
            forall|px: int, py: int|
                0 <= px < width && 0 <= py < height && !(bb.min_y <= py < y)
                    ==> depth.depth_buffer@[#[trigger] (py * w + px)] == pre_depth[py * w + px]
                    && frag.fragments@[py * w + px] == pre_frag[py * w + px],
            forall|i: int|
                w * h <= i < pre_depth.len() ==> depth.depth_buffer@[i] == pre_depth[i],
        decreases bb.max_y as int - y,
    {
        let ghost row_depth = depth.depth_buffer@;
        let ghost row_frag = frag.fragments@;
        let ghost row_slab = slab.entries@;
        let mut x: u32 = bb.min_x;
        while x < bb.max_x
            invariant
                bb.min_x <= x,
                x <= bb.max_x + 7 || x == bb.min_x,
                depth.depth_buffer@.len() == pre_depth.len(),
                frag.fragments@.len() == pre_frag.len(),
                pre_slab.len() <= slab.entries@.len(),
                forall|j: int| 0 <= j < pre_slab.len() ==> slab.entries@[j] == pre_slab[j],
                forall|i: int| 0 <= i < depth.depth_buffer@.len() ==> depth.depth_buffer@[i] >= 0,
                frag_keys_wf(frag.fragments@, slab.entries@),
                forall|px: int, py: int|
                    0 <= px < width && bb.min_y <= py < y ==> #[trigger] raster_pixel_post(
                        *t,
                        fs_index as int,
                        w,
                        h,
                        px,
                        py,
                        pre_depth[py * w + px],
                        depth.depth_buffer@[py * w + px],
                        pre_frag[py * w + px],
                        frag.fragments@[py * w + px],
                        slab.entries@,
                    ),
                forall|px: int|
                    bb.min_x <= px < x && px < width ==> #[trigger] raster_pixel_post(
                        *t,
                        fs_index as int,
                        w,
                        h,
                        px,
                        y as int,
                        pre_depth[y * w + px],
                        depth.depth_buffer@[y * w + px],
                        pre_frag[y * w + px],
                        frag.fragments@[y * w + px],
                        slab.entries@,
                    ),
                forall|px: int|
                    0 <= px < width && (px < bb.min_x || x <= px) ==> depth.depth_buffer@[
                        #[trigger] (y * w + px)
                    ] == pre_depth[y * w + px] && frag.fragments@[y * w + px] == pre_frag[y * w
                        + px],
                forall|px: int, py: int|
                    0 <= px < width && 0 <= py < height && (py < bb.min_y || y < py)
                        ==> depth.depth_buffer@[#[trigger] (py * w + px)] == pre_depth[py * w + px]
                        && frag.fragments@[py * w + px] == pre_frag[py * w + px],
                forall|i: int|
                    w * h <= i < pre_depth.len() ==> depth.depth_buffer@[i] == pre_depth[i],
            decreases bb.max_x as int + 8 - x,
        {
            let ghost db0 = depth.depth_buffer@;
            let ghost fb0 = frag.fragments@;
            let ghost sb0 = slab.entries@;
            let ghost idx = (y as int) * w + (x as int);
            raster_stamp(
                depth,
                frag,
                slab,
                &setup,
                Ghost(*t),
                fs_index,
                x,
                y,
                bb.max_x,
                width,
                height,
            );
            proof {
                let dbn = depth.depth_buffer@;
                let fbn = frag.fragments@;
                let sbn = slab.entries@;
                // cells of other pixels are untouched by this stamp
                assert forall|px: int, py: int|
                    0 <= px < width && 0 <= py < height && !(py == y && x <= px)
                        implies dbn[#[trigger] (py * w + px)] == db0[py * w + px] && fbn[py * w
                        + px] == fb0[py * w + px] by {
                    let i = py * w + px;
                    lemma_pix_index(w, h, px, py);
                    if py < y {
                        lemma_row_order(w, py, px, y as int, x as int);
                    } else if py > y {
                        if idx <= i < idx + 8 {
                            let l = i - idx;
                            assert((py - y) * w == py * w - (y as int) * w) by (nonlinear_arith);
                            assert(x + l == (py - y) * w + px);
                            assert((py - y) * w + px >= w) by (nonlinear_arith)
                                requires
                                    py - y >= 1,
                                    px >= 0,
                                    w >= 1,
                            ;
                            assert(x + l >= bb.max_x);
                            assert(dbn[(y as int) * (width as int) + (x as int) + l] == db0[(
                            y as int) * (width as int) + (x as int) + l]);
                            assert(fbn[(y as int) * (width as int) + (x as int) + l] == fb0[(
                            y as int) * (width as int) + (x as int) + l]);
                        }
                    } else {
                        assert(px < x);
                        assert(i < idx);
                    }
                }
                // the padding cells past the last pixel keep their values
                assert forall|i: int| w * h <= i < pre_depth.len() implies dbn[i] == db0[i] by {
                    if idx <= i < idx + 8 {
                        let l = i - idx;
                        assert((h - (y as int)) * w == h * w - (y as int) * w)
                            by (nonlinear_arith);
                        assert(h * w == w * h) by (nonlinear_arith);
                        assert((h - (y as int)) * w >= w) by (nonlinear_arith)
                            requires
                                h - (y as int) >= 1,
                                w >= 1,
                        ;
                        assert(x + l >= bb.max_x);
                        assert(dbn[(y as int) * (width as int) + (x as int) + l] == db0[(
                        y as int) * (width as int) + (x as int) + l]);
                    }
                }
                // lanes past the fence are untouched and uncovered
                assert forall|px: int|
                    x + 8 <= px < width implies dbn[#[trigger] (y * w + px)] == db0[y * w + px]
                        && fbn[y * w + px] == fb0[y * w + px] by {
                    lemma_pix_index(w, h, px, y as int);
                }
                assert forall|px: int|
                    bb.max_x <= px < vstd::math::min(x + 8, width as int) implies dbn[
                        #[trigger] (y * w + px)
                    ] == db0[y * w + px] && fbn[y * w + px] == fb0[y * w + px] by {
                    lemma_pix_index(w, h, px, y as int);
                    let l = px - x;
                    assert(dbn[idx + l] == db0[idx + l]);
                    assert(fbn[idx + l] == fb0[idx + l]);
                }
                // older posts survive: their cells are untouched and the slab grew
                assert forall|px: int, py: int|
                    0 <= px < width && bb.min_y <= py < y implies #[trigger] raster_pixel_post(
                    *t,
                    fs_index as int,
                    w,
                    h,
                    px,
                    py,
                    pre_depth[py * w + px],
                    dbn[py * w + px],
                    pre_frag[py * w + px],
                    fbn[py * w + px],
                    sbn,
                ) by {
                    lemma_pix_index(w, h, px, py);
                    assert(raster_pixel_post(
                        *t,
                        fs_index as int,
                        w,
                        h,
                        px,
                        py,
                        pre_depth[py * w + px],
                        db0[py * w + px],
                        pre_frag[py * w + px],
                        fb0[py * w + px],
                        sb0,
                    ));
                }
                assert forall|px: int|
                    bb.min_x <= px < x + 8 && px < width implies #[trigger] raster_pixel_post(
                    *t,
                    fs_index as int,
                    w,
                    h,
                    px,
                    y as int,
                    pre_depth[y * w + px],
                    dbn[y * w + px],
                    pre_frag[y * w + px],
                    fbn[y * w + px],
                    sbn,
                ) by {
                    lemma_pix_index(w, h, px, y as int);
                    if px < x {
                        assert(raster_pixel_post(
                            *t,
                            fs_index as int,
                            w,
                            h,
                            px,
                            y as int,
                            pre_depth[y * w + px],
                            db0[y * w + px],
                            pre_frag[y * w + px],
                            fb0[y * w + px],
                            sb0,
                        ));
                    } else if px < bb.max_x {
                        let l = px - x;
                        assert(raster_pixel_post(
                            *t,
                            fs_index as int,
                            width as int,
                            height as int,
                            (x as int) + l,
                            y as int,
                            db0[(y as int) * (width as int) + (x as int) + l],
                            dbn[(y as int) * (width as int) + (x as int) + l],
                            fb0[(y as int) * (width as int) + (x as int) + l],
                            fbn[(y as int) * (width as int) + (x as int) + l],
                            sbn,
                        ));
                        assert(db0[y * w + px] == pre_depth[y * w + px]);
                        assert(fb0[y * w + px] == pre_frag[y * w + px]);
                    } else {
                        assert(dbn[y * w + px] == db0[y * w + px]);
                        assert(cand(*t, w, h, px, y as int) is None);
                    }
                }
            }
            x = x + 8;
        }
        proof {
            assert forall|px: int|
                0 <= px < width && !(bb.min_x <= px < x) implies #[trigger] raster_pixel_post(
                *t,
                fs_index as int,
                w,
                h,
                px,
                y as int,
                pre_depth[y * w + px],
                depth.depth_buffer@[y * w + px],
                pre_frag[y * w + px],
                frag.fragments@[y * w + px],
                slab.entries@,
            ) by {
                assert(cand(*t, w, h, px, y as int) is None);
            }
        }
        y = y + 1;
    }
    proof {
        assert forall|px: int, py: int|
            0 <= px < width && 0 <= py < height && !(bb.min_y <= py < y) implies
            #[trigger] raster_pixel_post(
            *t,
            fs_index as int,
            w,
            h,
            px,
            py,
            pre_depth[py * w + px],
            depth.depth_buffer@[py * w + px],
            pre_frag[py * w + px],
            frag.fragments@[py * w + px],
            slab.entries@,
        ) by {
            assert(cand(*t, w, h, px, py) is None);
        }
    }
}

} // verus!
