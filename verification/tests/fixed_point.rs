use fuwa::fixed::{fx_ceil, fx_div, fx_div_sat, fx_floor, fx_mul, fx_of_int, FX_ONE};

#[test]
fn mul_of_whole_numbers_is_exact() {
    assert_eq!(fx_mul(3 * FX_ONE, 2 * FX_ONE), 6 * FX_ONE);
    assert_eq!(fx_mul(-3 * FX_ONE, 2 * FX_ONE), -6 * FX_ONE);
    assert_eq!(fx_mul(0, 12345), 0);
}

#[test]
fn mul_truncates_toward_zero() {
    // 1.5 * 0.5 = 0.75 exactly representable
    assert_eq!(fx_mul(98304, 32768), 49152);
    // (1/65536) * (1/2) truncates to zero
    assert_eq!(fx_mul(1, 32768), 0);
    // negative counterpart truncates toward zero, not down
    assert_eq!(fx_mul(-1, 32768), 0);
}

#[test]
fn div_is_exact_on_powers_of_two() {
    assert_eq!(fx_div(FX_ONE, 2 * FX_ONE), FX_ONE / 2);
    assert_eq!(fx_div(-3 * FX_ONE, 2 * FX_ONE), -(3 * FX_ONE) / 2);
    assert_eq!(fx_div(FX_ONE, FX_ONE), FX_ONE);
}

#[test]
fn floor_and_ceil_match_the_reals() {
    assert_eq!(fx_floor(FX_ONE), 1);
    assert_eq!(fx_floor(FX_ONE + 1), 1);
    assert_eq!(fx_floor(-1), -1);
    assert_eq!(fx_floor(-FX_ONE), -1);
    assert_eq!(fx_ceil(FX_ONE), 1);
    assert_eq!(fx_ceil(FX_ONE + 1), 2);
    assert_eq!(fx_ceil(-1), 0);
    assert_eq!(fx_ceil(-FX_ONE - 1), -1);
}

#[test]
fn saturating_division_clips_at_the_rails() {
    assert_eq!(fx_div_sat(i64::MAX / 2, 1), i64::MAX);
    assert_eq!(fx_div_sat(-(i64::MAX / 2), 1), i64::MIN);
    assert_eq!(fx_div_sat(3 * FX_ONE, 2 * FX_ONE), 98304);
}

#[test]
fn int_conversion_scales() {
    assert_eq!(fx_of_int(7), 7 * FX_ONE);
    assert_eq!(fx_of_int(-7), -7 * FX_ONE);
}
