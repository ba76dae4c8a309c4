//! Triangles through the pipeline: three positions with their attribute
//! payloads, the view-space back-face test, and the screen-space
//! transforms.

use vstd::prelude::*;

verus! {

use crate::fixed::{fx_div, fx_div_spec, fx_mul, fx_mul_spec, lemma_fx_div_bound, lemma_fx_mul_bound, FX_ONE};
use crate::fx3::{fx3_bounded, fx3_scale, fx3_scale_spec, Fx3};
use crate::limits::{SCREEN_ATTR_BOUND, SCREEN_BOUND, VS_BOUND, Z_INV_BOUND};
use vstd::math::abs;

/// A triangle at any pipeline stage. Before the screen-space transform the
/// positions are view-space with `z` the view depth; after it they are
/// screen-space with `z` the reciprocal depth and the attributes
/// premultiplied by it.
#[derive(Clone, Copy, PartialEq, Eq, Structural, Debug)]
pub struct Triangle {
    pub p0: Fx3,
    pub p1: Fx3,
    pub p2: Fx3,
    pub a0: Fx3,
    pub a1: Fx3,
    pub a2: Fx3,
}

/// View-space magnitudes within the vertex-stage limit.
pub open spec fn view_bounded(t: Triangle) -> bool {
    &&& fx3_bounded(t.p0, VS_BOUND as int)
    &&& fx3_bounded(t.p1, VS_BOUND as int)
    &&& fx3_bounded(t.p2, VS_BOUND as int)
    &&& fx3_bounded(t.a0, VS_BOUND as int)
    &&& fx3_bounded(t.a1, VS_BOUND as int)
    &&& fx3_bounded(t.a2, VS_BOUND as int)
}

/// One screen-space vertex: coordinates in the raster range, a
/// nonnegative bounded reciprocal depth.
pub open spec fn screen_vertex_wf(p: Fx3) -> bool {
    &&& abs(p.x as int) <= SCREEN_BOUND as int
    &&& abs(p.y as int) <= SCREEN_BOUND as int
    &&& 0 <= p.z <= Z_INV_BOUND
}

/// Screen-space magnitudes the rasterizer's arithmetic relies on.
pub open spec fn screen_wf(t: Triangle) -> bool {
    &&& screen_vertex_wf(t.p0)
    &&& screen_vertex_wf(t.p1)
    &&& screen_vertex_wf(t.p2)
    &&& fx3_bounded(t.a0, SCREEN_ATTR_BOUND as int)
    &&& fx3_bounded(t.a1, SCREEN_ATTR_BOUND as int)
    &&& fx3_bounded(t.a2, SCREEN_ATTR_BOUND as int)
}

/// The back-face measure: `cross(p1 - p0, p2 - p0) . p0`, negative for a
/// triangle wound away from the viewer at the origin.
pub open spec fn backface_dot(t: Triangle) -> int {
    let e1x = t.p1.x - t.p0.x;
    let e1y = t.p1.y - t.p0.y;
    let e1z = t.p1.z - t.p0.z;
    let e2x = t.p2.x - t.p0.x;
    let e2y = t.p2.y - t.p0.y;
    let e2z = t.p2.z - t.p0.z;
    let cx = fx_mul_spec(e1y, e2z) - fx_mul_spec(e1z, e2y);
    let cy = fx_mul_spec(e1z, e2x) - fx_mul_spec(e1x, e2z);
    let cz = fx_mul_spec(e1x, e2y) - fx_mul_spec(e1y, e2x);
    fx_mul_spec(cx, t.p0.x as int) + fx_mul_spec(cy, t.p0.y as int) + fx_mul_spec(
        cz,
        t.p0.z as int,
    )
}

pub open spec fn is_backfacing_spec(t: Triangle) -> bool {
    backface_dot(t) < 0
}

/// What the screen-space transform does to one vertex and its payload:
/// `None` when the view depth is at or behind the eye or the projected
/// point leaves the raster range.
pub open spec fn transform_vertex_spec(p: Fx3, a: Fx3, xfac: int, yfac: int) -> Option<
    (Fx3, Fx3),
> {
    if p.z < 1 {
        None
    } else {
        let zi = fx_div_spec(FX_ONE as int, p.z as int);
        let xs = fx_mul_spec(fx_mul_spec(p.x as int, zi) + FX_ONE as int, xfac);
        let ys = fx_mul_spec(fx_mul_spec(-(p.y as int), zi) + FX_ONE as int, yfac);
        if abs(xs) <= SCREEN_BOUND as int && abs(ys) <= SCREEN_BOUND as int {
            Some((Fx3 { x: xs as i64, y: ys as i64, z: zi as i64 }, fx3_scale_spec(a, zi)))
        } else {
            None
        }
    }
}

/// The whole perspective screen-space transform: all three vertices must
/// survive.
pub open spec fn transform_triangle_spec(t: Triangle, xfac: int, yfac: int) -> Option<Triangle> {
    match (
        transform_vertex_spec(t.p0, t.a0, xfac, yfac),
        transform_vertex_spec(t.p1, t.a1, xfac, yfac),
        transform_vertex_spec(t.p2, t.a2, xfac, yfac),
    ) {
        (Some(v0), Some(v1), Some(v2)) => Some(
            Triangle { p0: v0.0, p1: v1.0, p2: v2.0, a0: v0.1, a1: v1.1, a2: v2.1 },
        ),
        _ => None,
    }
}

/// A screen scale factor is half a viewport side, as a fixed-point value.
pub open spec fn factor_wf(f: int) -> bool {
    0 <= f <= 0x4000_0000
}

impl Triangle {
    pub fn new(points: [Fx3; 3], vs_input: [Fx3; 3]) -> (r: Triangle)
        ensures
            r.p0 == points@[0] && r.p1 == points@[1] && r.p2 == points@[2],
            r.a0 == vs_input@[0] && r.a1 == vs_input@[1] && r.a2 == vs_input@[2],
    {
        Triangle {
            p0: points[0],
            p1: points[1],
            p2: points[2],
            a0: vs_input[0],
            a1: vs_input[1],
            a2: vs_input[2],
        }
    }

    /// The view-space back-face test.
    pub fn is_backfacing(&self) -> (r: bool)
        requires
            view_bounded(*self),
        ensures
            r == is_backfacing_spec(*self),
    {
        let ghost b2: int = 2 * VS_BOUND as int;
        let e1x = self.p1.x - self.p0.x;
        let e1y = self.p1.y - self.p0.y;
        let e1z = self.p1.z - self.p0.z;
        let e2x = self.p2.x - self.p0.x;
        let e2y = self.p2.y - self.p0.y;
        let e2z = self.p2.z - self.p0.z;
        proof {
            lemma_fx_mul_bound(e1y as int, e2z as int, b2, b2);
            lemma_fx_mul_bound(e1z as int, e2y as int, b2, b2);
            lemma_fx_mul_bound(e1z as int, e2x as int, b2, b2);
            lemma_fx_mul_bound(e1x as int, e2z as int, b2, b2);
            lemma_fx_mul_bound(e1x as int, e2y as int, b2, b2);
            lemma_fx_mul_bound(e1y as int, e2x as int, b2, b2);
        }
        let cx = fx_mul(e1y, e2z) - fx_mul(e1z, e2y);
        let cy = fx_mul(e1z, e2x) - fx_mul(e1x, e2z);
        let cz = fx_mul(e1x, e2y) - fx_mul(e1y, e2x);
        let ghost cb: int = (b2 * b2) / (FX_ONE as int) * 2;
        proof {
            lemma_fx_mul_bound(cx as int, self.p0.x as int, cb, VS_BOUND as int);
            lemma_fx_mul_bound(cy as int, self.p0.y as int, cb, VS_BOUND as int);
            lemma_fx_mul_bound(cz as int, self.p0.z as int, cb, VS_BOUND as int);
        }
        let d = fx_mul(cx, self.p0.x) + fx_mul(cy, self.p0.y) + fx_mul(cz, self.p0.z);
        d < 0
    }

    /// Perspective screen-space transform of all three vertices; the
    /// attribute payloads are premultiplied by the reciprocal depth for
    /// perspective-correct interpolation.
    pub fn transform_screen_space_perspective(&self, x_factor: i64, y_factor: i64) -> (r: Option<
        Triangle,
    >)
        requires
            view_bounded(*self),
            factor_wf(x_factor as int),
            factor_wf(y_factor as int),
        ensures
            r == transform_triangle_spec(*self, x_factor as int, y_factor as int),
            r is Some ==> screen_wf(r.unwrap()),
    {
        let v0 = transform_vertex(&self.p0, &self.a0, x_factor, y_factor);
        let v1 = transform_vertex(&self.p1, &self.a1, x_factor, y_factor);
        let v2 = transform_vertex(&self.p2, &self.a2, x_factor, y_factor);
        match (v0, v1, v2) {
            (Some(w0), Some(w1), Some(w2)) => Some(
                Triangle { p0: w0.0, p1: w1.0, p2: w2.0, a0: w0.1, a1: w1.1, a2: w2.1 },
            ),
            _ => None,
        }
    }
}

/// One vertex of the perspective transform, exact per
/// `transform_vertex_spec`.
fn transform_vertex(p: &Fx3, a: &Fx3, xfac: i64, yfac: i64) -> (r: Option<(Fx3, Fx3)>)
    requires
        fx3_bounded(*p, VS_BOUND as int),
        fx3_bounded(*a, VS_BOUND as int),
        factor_wf(xfac as int),
        factor_wf(yfac as int),
    ensures
        r == transform_vertex_spec(*p, *a, xfac as int, yfac as int),
        r is Some ==> screen_vertex_wf(r.unwrap().0) && fx3_bounded(
            r.unwrap().1,
            SCREEN_ATTR_BOUND as int,
        ),
{
    if p.z < 1 {
        return None;
    }
    proof {
        lemma_fx_div_bound(FX_ONE as int, p.z as int, FX_ONE as int, 1);
        crate::fixed::lemma_div_trunc_abs((FX_ONE as int) * (FX_ONE as int), p.z as int);
    }
    let zi = fx_div(FX_ONE, p.z);
    proof {
        lemma_fx_mul_bound(p.x as int, zi as int, VS_BOUND as int, Z_INV_BOUND as int);
        lemma_fx_mul_bound(-(p.y as int), zi as int, VS_BOUND as int, Z_INV_BOUND as int);
    }
    let tx = fx_mul(p.x, zi) + FX_ONE;
    let ty = fx_mul(-p.y, zi) + FX_ONE;
    let ghost tb: int = (VS_BOUND as int) * (Z_INV_BOUND as int) / (FX_ONE as int) + FX_ONE as int;
    proof {
        lemma_fx_mul_bound(tx as int, xfac as int, tb, 0x4000_0000);
        lemma_fx_mul_bound(ty as int, yfac as int, tb, 0x4000_0000);
    }
    let xs = fx_mul(tx, xfac);
    let ys = fx_mul(ty, yfac);
    if xs <= SCREEN_BOUND && xs >= -SCREEN_BOUND && ys <= SCREEN_BOUND && ys >= -SCREEN_BOUND {
        proof {
            lemma_fx_mul_bound(a.x as int, zi as int, VS_BOUND as int, Z_INV_BOUND as int);
            lemma_fx_mul_bound(a.y as int, zi as int, VS_BOUND as int, Z_INV_BOUND as int);
            lemma_fx_mul_bound(a.z as int, zi as int, VS_BOUND as int, Z_INV_BOUND as int);
        }
        let pa = fx3_scale(a, zi);
        Some((Fx3 { x: xs, y: ys, z: zi }, pa))
    } else {
        None
    }
}

} // verus!
