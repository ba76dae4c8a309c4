//! Three-component fixed-point vectors: positions in view or screen space
//! and vertex attribute payloads (a color, or a UV pair in the first two
//! lanes).

use vstd::prelude::*;

verus! {

use crate::fixed::{fx_mul, fx_mul_spec, i64_fits};
use vstd::math::abs;

#[derive(Clone, Copy, PartialEq, Eq, Structural, Debug)]
pub struct Fx3 {
    pub x: i64,
    pub y: i64,
    pub z: i64,
}

/// Every component's magnitude is at most `m`.
pub open spec fn fx3_bounded(v: Fx3, m: int) -> bool {
    abs(v.x as int) <= m && abs(v.y as int) <= m && abs(v.z as int) <= m
}

/// Componentwise sum.
pub fn fx3_add(a: &Fx3, b: &Fx3) -> (r: Fx3)
    requires
        i64_fits(a.x + b.x),
        i64_fits(a.y + b.y),
        i64_fits(a.z + b.z),
    ensures
        r.x == a.x + b.x,
        r.y == a.y + b.y,
        r.z == a.z + b.z,
{
    Fx3 { x: a.x + b.x, y: a.y + b.y, z: a.z + b.z }
}

/// Componentwise difference.
pub fn fx3_sub(a: &Fx3, b: &Fx3) -> (r: Fx3)
    requires
        i64_fits(a.x - b.x),
        i64_fits(a.y - b.y),
        i64_fits(a.z - b.z),
    ensures
        r.x == a.x - b.x,
        r.y == a.y - b.y,
        r.z == a.z - b.z,
{
    Fx3 { x: a.x - b.x, y: a.y - b.y, z: a.z - b.z }
}

/// The vector scaled by the fixed-point factor `s`.
pub open spec fn fx3_scale_spec(v: Fx3, s: int) -> (Fx3) {
    Fx3 {
        x: fx_mul_spec(v.x as int, s) as i64,
        y: fx_mul_spec(v.y as int, s) as i64,
        z: fx_mul_spec(v.z as int, s) as i64,
    }
}

pub fn fx3_scale(v: &Fx3, s: i64) -> (r: Fx3)
    requires
        i64_fits(fx_mul_spec(v.x as int, s as int)),
        i64_fits(fx_mul_spec(v.y as int, s as int)),
        i64_fits(fx_mul_spec(v.z as int, s as int)),
    ensures
        r == fx3_scale_spec(*v, s as int),
        r.x as int == fx_mul_spec(v.x as int, s as int),
        r.y as int == fx_mul_spec(v.y as int, s as int),
        r.z as int == fx_mul_spec(v.z as int, s as int),
{
    Fx3 { x: fx_mul(v.x, s), y: fx_mul(v.y, s), z: fx_mul(v.z, s) }
}

/// Componentwise fixed-point product.
pub fn fx3_cmul(a: &Fx3, b: &Fx3) -> (r: Fx3)
    requires
        i64_fits(fx_mul_spec(a.x as int, b.x as int)),
        i64_fits(fx_mul_spec(a.y as int, b.y as int)),
        i64_fits(fx_mul_spec(a.z as int, b.z as int)),
    ensures
        r.x as int == fx_mul_spec(a.x as int, b.x as int),
        r.y as int == fx_mul_spec(a.y as int, b.y as int),
        r.z as int == fx_mul_spec(a.z as int, b.z as int),
{
    Fx3 { x: fx_mul(a.x, b.x), y: fx_mul(a.y, b.y), z: fx_mul(a.z, b.z) }
}

} // verus!
