use clmm_pool::tick_math::{
    div_q64, mul_q64, sqrt_price_to_tick, sqrt_price_x64_to_price_x64, sqrt_price_x64_to_tick,
    tick_to_sqrt_price_x64, ONE_X64, SQRT_1_0001_X64,
};

const ONE: u128 = 18446744073709551616;

#[test]
fn one_x64_is_two_to_the_64() {
    assert_eq!(ONE_X64, 1u128 << 64);
    assert_eq!(SQRT_1_0001_X64, 18447666387855958016);
}

#[test]
fn mul_q64_small_magnitudes() {
    // (3 * 2^-32) * (5 * 2^-32) = 15 * 2^-64, i.e. raw 15
    assert_eq!(mul_q64(3u128 << 32, 5u128 << 32), 15);
    assert_eq!(mul_q64(0, ONE), 0);
    assert_eq!(mul_q64(ONE, 7), 7);
}

#[test]
fn mul_q64_saturates_at_one_times_one() {
    // 1.0 * 1.0 overflows the 128-bit intermediate and clamps just below 1.0
    assert_eq!(mul_q64(ONE, ONE), ONE - 1);
    assert_eq!(mul_q64(u128::MAX, u128::MAX), ONE - 1);
}

#[test]
fn div_q64_basics() {
    // 1.0 / 2.0 = 0.5 (intermediate saturates: 1.0 is already 2^64)
    assert_eq!(div_q64(ONE, 2 * ONE), (1u128 << 63) - 1);
    assert_eq!(div_q64(7, 1), 7 << 64);
    assert_eq!(div_q64(0, 5), 0);
}

#[test]
fn tick_zero_is_exactly_two_to_the_64() {
    assert_eq!(tick_to_sqrt_price_x64(0), 1u128 << 64);
}

#[test]
fn tick_conversion_clamps_away_from_zero() {
    // every positive tick saturates the growth factor to just below parity,
    // every negative tick to just above it
    assert_eq!(tick_to_sqrt_price_x64(1), ONE - 1);
    assert_eq!(tick_to_sqrt_price_x64(5), ONE - 1);
    assert_eq!(tick_to_sqrt_price_x64(-1), ONE + 1);
    assert_eq!(tick_to_sqrt_price_x64(-7), ONE + 1);
}

#[test]
fn round_trip_at_parity_is_exact() {
    let p = tick_to_sqrt_price_x64(0);
    assert_eq!(sqrt_price_x64_to_tick(p, 10000), 0);
    assert_eq!(sqrt_price_to_tick(p), 0);
}

#[test]
fn inverse_search_below_parity() {
    // one step down crosses any target just below parity
    assert_eq!(sqrt_price_x64_to_tick(ONE - 1, 10000), -1);
}

#[test]
fn inverse_search_exhausts_budget_above_parity() {
    // the running value clamps below parity and never reaches a target
    // above it, so the search returns the bound
    assert_eq!(sqrt_price_x64_to_tick(ONE + 1, 5), 5);
    assert_eq!(sqrt_price_to_tick(ONE + 1), 10000);
}

#[test]
fn sqrt_price_squares_to_price() {
    assert_eq!(sqrt_price_x64_to_price_x64(ONE), ONE - 1);
    assert_eq!(sqrt_price_x64_to_price_x64(0), 0);
    // 0.5 squared is 0.25
    assert_eq!(sqrt_price_x64_to_price_x64(1u128 << 63), 1u128 << 62);
}
