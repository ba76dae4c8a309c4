//! Exact Q47.16 signed fixed-point arithmetic on `i64`.
//!
//! A fixed-point value holds `v * FX_ONE` for the real value `v`. Products
//! and quotients truncate toward zero, exactly as the specification
//! functions below state, so every arithmetic step of the rasterizer has a
//! closed-form integer meaning.

use vstd::prelude::*;

verus! {

use vstd::arithmetic::div_mod::{lemma_div_is_ordered, lemma_div_pos_is_pos, lemma_div_nonincreasing};
use vstd::math::abs;

/// The fixed-point scale: the representation of the real number 1.
pub const FX_ONE: i64 = 65536;

/// Truncating (toward zero) integer division, the semantics of Rust's `/`
/// on signed integers.
pub open spec fn div_trunc(x: int, d: int) -> int
    recommends
        d != 0,
{
    if x == 0 {
        0
    } else if x > 0 && d > 0 {
        x / d
    } else if x < 0 && d < 0 {
        (x * -1) / (d * -1)
    } else if x < 0 {
        ((x * -1) / d) * -1
    } else {
        (x / (d * -1)) * -1
    }
}

/// The fixed-point product: `(a * b) / FX_ONE`, truncated toward zero.
pub open spec fn fx_mul_spec(a: int, b: int) -> int {
    div_trunc(a * b, FX_ONE as int)
}

/// The fixed-point quotient: `(a * FX_ONE) / b`, truncated toward zero.
pub open spec fn fx_div_spec(a: int, b: int) -> int {
    div_trunc(a * (FX_ONE as int), b)
}

/// The greatest integer at or below the fixed-point value `a`.
pub open spec fn fx_floor_spec(a: int) -> int {
    a / (FX_ONE as int)
}

/// The least integer at or above the fixed-point value `a`.
pub open spec fn fx_ceil_spec(a: int) -> int {
    -((-a) / (FX_ONE as int))
}

pub open spec fn i64_fits(x: int) -> bool {
    i64::MIN <= x <= i64::MAX
}

/// For a positive divisor, truncation toward zero divides the magnitude:
/// `|div_trunc(x, d)| == |x| / d`.
pub proof fn lemma_div_trunc_abs(x: int, d: int)
    requires
        d >= 1,
    ensures
        abs(div_trunc(x, d)) as int == (abs(x) as int) / d,
        x >= 0 ==> div_trunc(x, d) == x / d,
        x >= 0 ==> div_trunc(x, d) >= 0,
        x < 0 ==> div_trunc(x, d) <= 0,
{
    if x > 0 {
        lemma_div_pos_is_pos(x, d);
    } else if x < 0 {
        lemma_div_pos_is_pos(-x, d);
    }
}

/// Bounds a truncating quotient from a bound on the dividend.
pub proof fn lemma_div_trunc_bound(x: int, d: int, m: int)
    requires
        d >= 1,
        abs(x) <= m,
    ensures
        abs(div_trunc(x, d)) <= m / d,
        abs(div_trunc(x, d)) <= m,
{
    lemma_div_trunc_abs(x, d);
    lemma_div_is_ordered(abs(x) as int, m, d);
    lemma_div_nonincreasing(m, d);
}

/// Bounds the magnitude of a product from bounds on its factors.
pub proof fn lemma_abs_mul(a: int, b: int, aa: int, bb: int)
    requires
        abs(a) <= aa,
        abs(b) <= bb,
    ensures
        abs(a * b) <= aa * bb,
{
    assert(abs(a * b) <= aa * bb) by (nonlinear_arith)
        requires
            abs(a) <= aa,
            abs(b) <= bb,
    {
        assert(-aa <= a <= aa);
        assert(-bb <= b <= bb);
    }
}

/// Bounds a fixed-point product from bounds on its factors.
pub proof fn lemma_fx_mul_bound(a: int, b: int, aa: int, bb: int)
    requires
        abs(a) <= aa,
        abs(b) <= bb,
    ensures
        abs(fx_mul_spec(a, b)) <= (aa * bb) / (FX_ONE as int),
        abs(fx_mul_spec(a, b)) <= aa * bb,
{
    lemma_abs_mul(a, b, aa, bb);
    lemma_div_trunc_bound(a * b, FX_ONE as int, aa * bb);
}

/// Bounds a fixed-point quotient: a dividend bound and a lower bound on the
/// divisor's magnitude bound the result.
pub proof fn lemma_fx_div_bound(a: int, b: int, aa: int, bmin: int)
    requires
        abs(a) <= aa,
        abs(b) >= bmin,
        bmin >= 1,
    ensures
        abs(fx_div_spec(a, b)) <= (aa * (FX_ONE as int)) / bmin,
{
    let p = a * (FX_ONE as int);
    lemma_abs_mul(a, FX_ONE as int, aa, FX_ONE as int);
    if b > 0 {
        lemma_div_trunc_abs(p, b);
        lemma_div_is_ordered(abs(p) as int, aa * (FX_ONE as int), b);
        lemma_div_is_ordered_by_denominator_pos(aa * (FX_ONE as int), bmin, b);
    } else {
        assert(div_trunc(p, b) == -div_trunc(p, -b)) by {
            if p > 0 {
                assert(div_trunc(p, b) == (p / (b * -1)) * -1);
            }
        }
        lemma_div_trunc_abs(p, -b);
        lemma_div_is_ordered(abs(p) as int, aa * (FX_ONE as int), -b);
        lemma_div_is_ordered_by_denominator_pos(aa * (FX_ONE as int), bmin, -b);
    }
}

/// Division of a fixed nonnegative dividend shrinks as the divisor grows.
proof fn lemma_div_is_ordered_by_denominator_pos(x: int, d1: int, d2: int)
    requires
        x >= 0,
        1 <= d1 <= d2,
    ensures
        x / d2 <= x / d1,
{
    vstd::arithmetic::div_mod::lemma_div_is_ordered_by_denominator(x, d1, d2);
}

/// Fixed-point product, exact per `fx_mul_spec`.
pub fn fx_mul(a: i64, b: i64) -> (r: i64)
    requires
        i64_fits(fx_mul_spec(a as int, b as int)),
    ensures
        r as int == fx_mul_spec(a as int, b as int),
{
    proof {
        lemma_abs_mul(a as int, b as int, 0x8000_0000_0000_0000, 0x8000_0000_0000_0000);
        lemma_div_trunc_bound(
            (a as int) * (b as int),
            FX_ONE as int,
            0x4000_0000_0000_0000_0000_0000_0000_0000,
        );
    }
    let p: i128 = (a as i128) * (b as i128);
    let q: i128 = p.checked_div(FX_ONE as i128).unwrap();
    q as i64
}

/// Fixed-point quotient, exact per `fx_div_spec`.
pub fn fx_div(a: i64, b: i64) -> (r: i64)
    requires
        b != 0,
        i64_fits(fx_div_spec(a as int, b as int)),
    ensures
        r as int == fx_div_spec(a as int, b as int),
{
    proof {
        lemma_abs_mul(a as int, FX_ONE as int, 0x8000_0000_0000_0000, FX_ONE as int);
        if b > 0 {
            lemma_div_trunc_abs((a as int) * (FX_ONE as int), b as int);
            lemma_div_is_ordered(
                abs((a as int) * (FX_ONE as int)) as int,
                0x8000_0000_0000_0000 * (FX_ONE as int),
                b as int,
            );
        } else {
            let p = (a as int) * (FX_ONE as int);
            assert(div_trunc(p, b as int) == -div_trunc(p, -(b as int))) by {
                if p > 0 {
                    assert(div_trunc(p, b as int) == (p / ((b as int) * -1)) * -1);
                }
            }
            lemma_div_trunc_abs(p, -(b as int));
            lemma_div_is_ordered(abs(p) as int, 0x8000_0000_0000_0000 * (FX_ONE as int), -(b as int));
        }
    }
    let p: i128 = (a as i128) * (FX_ONE as i128);
    let q: i128 = p.checked_div(b as i128).unwrap();
    q as i64
}

/// Greatest integer at or below the fixed-point value, exact per
/// `fx_floor_spec`.
pub fn fx_floor(a: i64) -> (r: i64)
    ensures
        r as int == fx_floor_spec(a as int),
{
    proof {
        lemma_floor_bounds(a as int);
    }
    a.checked_div_euclid(FX_ONE).unwrap()
}

/// Least integer at or above the fixed-point value, exact per
/// `fx_ceil_spec`.
pub fn fx_ceil(a: i64) -> (r: i64)
    requires
        a != i64::MIN,
    ensures
        r as int == fx_ceil_spec(a as int),
{
    proof {
        lemma_floor_bounds(-(a as int));
    }
    let n: i64 = -a;
    let f: i64 = n.checked_div_euclid(FX_ONE).unwrap();
    proof {
        if f == i64::MIN {
            lemma_floor_bounds(n as int);
        }
    }
    -f
}

/// The floor quotient by `FX_ONE` keeps the dividend's magnitude bound.
proof fn lemma_floor_bounds(x: int)
    ensures
        x >= 0 ==> 0 <= x / (FX_ONE as int) <= x,
        x < 0 ==> x <= x / (FX_ONE as int) <= 0,
{
    if x >= 0 {
        lemma_div_pos_is_pos(x, FX_ONE as int);
        lemma_div_nonincreasing(x, FX_ONE as int);
    } else {
        assert(x <= x / (FX_ONE as int) <= 0) by (nonlinear_arith)
            requires
                x < 0,
        {
            vstd::arithmetic::div_mod::lemma_fundamental_div_mod(x, FX_ONE as int);
            vstd::arithmetic::div_mod::lemma_mod_division_less_than_divisor(x, FX_ONE as int);
        }
    }
}

/// The fixed-point representation of a small integer.
pub fn fx_of_int(i: i64) -> (r: i64)
    requires
        -0x7fff_ffff_ffff <= i <= 0x7fff_ffff_ffff,
    ensures
        r as int == i * (FX_ONE as int),
{
    i * FX_ONE
}

/// An integer clipped to the `i64` range.
pub open spec fn clip_i64(x: int) -> int {
    if x > i64::MAX {
        i64::MAX as int
    } else if x < i64::MIN {
        i64::MIN as int
    } else {
        x
    }
}

/// The saturating fixed-point quotient.
pub open spec fn fx_div_sat_spec(a: int, b: int) -> int {
    clip_i64(fx_div_spec(a, b))
}

/// Saturating fixed-point quotient, exact per `fx_div_sat_spec`.
pub fn fx_div_sat(a: i64, b: i64) -> (r: i64)
    requires
        b != 0,
    ensures
        r as int == fx_div_sat_spec(a as int, b as int),
{
    proof {
        lemma_abs_mul(a as int, FX_ONE as int, 0x8000_0000_0000_0000, FX_ONE as int);
        let p = (a as int) * (FX_ONE as int);
        if b > 0 {
            lemma_div_trunc_abs(p, b as int);
            lemma_div_is_ordered(abs(p) as int, 0x8000_0000_0000_0000 * (FX_ONE as int), b as int);
        } else {
            assert(div_trunc(p, b as int) == -div_trunc(p, -(b as int))) by {
                if p > 0 {
                    assert(div_trunc(p, b as int) == (p / ((b as int) * -1)) * -1);
                }
            }
            lemma_div_trunc_abs(p, -(b as int));
            lemma_div_is_ordered(abs(p) as int, 0x8000_0000_0000_0000 * (FX_ONE as int), -(b as int));
        }
    }
    let p: i128 = (a as i128) * (FX_ONE as i128);
    let q: i128 = p.checked_div(b as i128).unwrap();
    if q > i64::MAX as i128 {
        i64::MAX
    } else if q < i64::MIN as i128 {
        i64::MIN
    } else {
        q as i64
    }
}

} // verus!
