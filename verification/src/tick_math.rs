//! Q64.64 fixed-point helpers and the tick <-> sqrt-price conversion.
//!
//! Prices are carried as the square root of the token1-per-token0 price in
//! unsigned Q64.64 fixed point: `sqrt_price_x64 = floor(sqrt(price) * 2^64)`,
//! with `price = 1.0001^tick`. The multiply and divide saturate the 128-bit
//! intermediate product instead of wrapping or panicking.

use vstd::prelude::*;
use vstd::arithmetic::div_mod::{
    lemma_fundamental_div_mod, lemma_fundamental_div_mod_converse,
    lemma_mod_division_less_than_divisor,
};
use vstd::arithmetic::mul::{lemma_mul_inequality, lemma_mul_is_distributive_add_other_way};

verus! {

/// 1.0 in Q64.64, i.e. 2^64.
pub const ONE_X64: u128 = 18446744073709551616;

/// floor(sqrt(1.0001) * 2^64): one tick's worth of sqrt-price growth.
pub const SQRT_1_0001_X64: u128 = 18447666387855958016;

/// A 128-bit intermediate clamped to `u128::MAX`.
pub open spec fn sat_u128(x: int) -> int {
    if x > u128::MAX as int {
        u128::MAX as int
    } else {
        x
    }
}

/// `floor(a * b / 2^64)` with the intermediate product saturating at `u128::MAX`.
pub open spec fn spec_mul_q64(a: int, b: int) -> int {
    sat_u128(a * b) / (ONE_X64 as int)
}

/// `floor(a * 2^64 / b)` with the intermediate product saturating at `u128::MAX`.
pub open spec fn spec_div_q64(a: int, b: int) -> int
    recommends
        b != 0,
{
    sat_u128(a * (ONE_X64 as int)) / b
}

/// `a * b` clamped to `u128::MAX`.
pub(crate) fn sat_mul(a: u128, b: u128) -> (r: u128)
    ensures
        r as int == sat_u128(a as int * b as int),
{
    if b == 0 {
        0
    } else if a <= u128::MAX / b {
        proof {
            lemma_mul_inequality(a as int, (u128::MAX / b) as int, b as int);
            lemma_fundamental_div_mod(u128::MAX as int, b as int);
            lemma_mod_division_less_than_divisor(u128::MAX as int, b as int);
        }
        a * b
    } else {
        proof {
            lemma_mul_inequality((u128::MAX / b) as int + 1, a as int, b as int);
            lemma_mul_is_distributive_add_other_way(
                b as int,
                (u128::MAX / b) as int,
                1,
            );
            lemma_fundamental_div_mod(u128::MAX as int, b as int);
            lemma_mod_division_less_than_divisor(u128::MAX as int, b as int);
        }
        u128::MAX
    }
}

/// Q64.64 multiply: `floor(a * b / 2^64)`, saturating the intermediate product.
pub fn mul_q64(a: u128, b: u128) -> (r: u128)
    ensures
        r as int == spec_mul_q64(a as int, b as int),
{
    sat_mul(a, b) / ONE_X64
}

/// Q64.64 divide: `floor(a * 2^64 / b)`, saturating the intermediate product.
pub fn div_q64(a: u128, b: u128) -> (r: u128)
    requires
        b != 0,
    ensures
        r as int == spec_div_q64(a as int, b as int),
{
    sat_mul(a, ONE_X64) / b
}

/// `sqrt(1.0001)^n` in Q64.64, as the `n`-fold saturating Q64.64 product.
pub open spec fn spec_factor(n: nat) -> int
    decreases n,
{
    if n == 0 {
        ONE_X64 as int
    } else {
        spec_mul_q64(spec_factor((n - 1) as nat), SQRT_1_0001_X64 as int)
    }
}

/// The sqrt price assigned to a tick: `2^64` at tick zero, the growth factor
/// for positive ticks, and its Q64.64 reciprocal for negative ticks.
pub open spec fn spec_tick_to_sqrt_price(tick: int) -> int {
    if tick == 0 {
        ONE_X64 as int
    } else if tick > 0 {
        spec_factor(tick as nat)
    } else {
        spec_div_q64(ONE_X64 as int, spec_factor((-tick) as nat))
    }
}

/// The saturating product clamps every step of the growth factor to
/// `2^64 - 1`: two Q64.64 magnitudes at or above 1.0 always overflow the
/// 128-bit intermediate.
pub proof fn lemma_factor_saturates(n: nat)
    requires
        n >= 1,
    ensures
        spec_factor(n) == ONE_X64 - 1,
    decreases n,
{
    lemma_fundamental_div_mod_converse(
        u128::MAX as int,
        ONE_X64 as int,
        ONE_X64 as int - 1,
        ONE_X64 as int - 1,
    );
    assert(spec_factor(n) == spec_mul_q64(spec_factor((n - 1) as nat), SQRT_1_0001_X64 as int));
    if n == 1 {
        assert(spec_factor(0) == ONE_X64 as int);
        assert(ONE_X64 as int * SQRT_1_0001_X64 as int > u128::MAX as int);
    } else {
        lemma_factor_saturates((n - 1) as nat);
        assert((ONE_X64 as int - 1) * SQRT_1_0001_X64 as int > u128::MAX as int);
    }
}

/// tick -> sqrt_price_x64: `2^64` at tick zero, otherwise the repeated
/// saturating Q64.64 product of `sqrt(1.0001)` (inverted for negative ticks).
pub fn tick_to_sqrt_price_x64(tick: i32) -> (r: u128)
    ensures
        r as int == spec_tick_to_sqrt_price(tick as int),
        tick == 0 ==> r == ONE_X64,
{
    if tick == 0 {
        return ONE_X64;
    }
    let abs_tick: u32 = if tick < 0 {
        (-(tick as i64)) as u32
    } else {
        tick as u32
    };
    let mut factor: u128 = ONE_X64;
    let mut i: u32 = 0;
    while i < abs_tick
        invariant
            i <= abs_tick,
            factor as int == spec_factor(i as nat),
        decreases abs_tick - i,
    {
        factor = mul_q64(factor, SQRT_1_0001_X64);
        i = i + 1;
    }
    if tick > 0 {
        factor
    } else {
        proof {
            lemma_factor_saturates(abs_tick as nat);
        }
        div_q64(ONE_X64, factor)
    }
}

/// The first tick at or past `p` in the ascending one-tick-at-a-time search,
/// or `max` when the budget runs out.
pub open spec fn spec_ascend(p: int, max: int, k: int) -> int
    decreases (if k <= max { max + 1 - k } else { 0 }),
{
    if k > max {
        max
    } else if spec_factor(k as nat) >= p {
        k
    } else {
        spec_ascend(p, max, k + 1)
    }
}

proof fn lemma_ascend_step(p: int, max: int, k: int)
    requires
        1 <= k <= max,
        spec_factor(k as nat) < p,
    ensures
        spec_ascend(p, max, k) == spec_ascend(p, max, k + 1),
{
    reveal_with_fuel(spec_ascend, 2);
}

/// `1 / sqrt(1.0001)^n` in Q64.64, as the `n`-fold saturating Q64.64 quotient.
pub open spec fn spec_down_factor(n: nat) -> int
    decreases n,
{
    if n == 0 {
        ONE_X64 as int
    } else {
        spec_div_q64(spec_down_factor((n - 1) as nat), SQRT_1_0001_X64 as int)
    }
}

/// The first tick at or past `p` in the descending search, or `-max` when the
/// budget runs out.
pub open spec fn spec_descend(p: int, max: int, k: int) -> int
    decreases (if k <= max { max + 1 - k } else { 0 }),
{
    if k > max {
        -max
    } else if spec_down_factor(k as nat) <= p {
        -k
    } else {
        spec_descend(p, max, k + 1)
    }
}

proof fn lemma_descend_step(p: int, max: int, k: int)
    requires
        1 <= k <= max,
        spec_down_factor(k as nat) > p,
    ensures
        spec_descend(p, max, k) == spec_descend(p, max, k + 1),
{
    reveal_with_fuel(spec_descend, 2);
}

/// The approximate inverse of the tick -> sqrt-price map: exact at `2^64`,
/// otherwise the first tick whose running value crosses the target, clamped to
/// `max` steps in either direction.
pub open spec fn spec_sqrt_price_to_tick(p: int, max: int) -> int {
    if p == ONE_X64 as int {
        0
    } else if p > ONE_X64 as int {
        spec_ascend(p, max, 1)
    } else {
        spec_descend(p, max, 1)
    }
}

/// sqrt_price_x64 -> tick, walking outward one tick at a time from parity
/// until the running value crosses the target, for at most `max_abs_tick`
/// steps; returns the bound itself when the search does not converge.
pub fn sqrt_price_x64_to_tick(sqrt_price_x64: u128, max_abs_tick: i32) -> (r: i32)
    requires
        max_abs_tick > i32::MIN,
    ensures
        r as int == spec_sqrt_price_to_tick(sqrt_price_x64 as int, max_abs_tick as int),
{
    if sqrt_price_x64 == ONE_X64 {
        return 0;
    }
    let mut current: u128 = ONE_X64;
    let mut tick: i32 = 0;
    if sqrt_price_x64 > ONE_X64 {
        while tick < max_abs_tick
            invariant
                0 <= tick,
                tick > 0 ==> tick <= max_abs_tick,
                sqrt_price_x64 > ONE_X64,
                current as int == spec_factor(tick as nat),
                spec_ascend(sqrt_price_x64 as int, max_abs_tick as int, 1) == (
                if tick < max_abs_tick {
                    spec_ascend(sqrt_price_x64 as int, max_abs_tick as int, tick as int + 1)
                } else {
                    max_abs_tick as int
                }),
            decreases max_abs_tick - tick,
        {
            current = mul_q64(current, SQRT_1_0001_X64);
            tick = tick + 1;
            if current >= sqrt_price_x64 {
                proof {
                    assert(spec_ascend(sqrt_price_x64 as int, max_abs_tick as int, tick as int)
                        == tick as int);
                }
                return tick;
            }
            proof {
                lemma_ascend_step(sqrt_price_x64 as int, max_abs_tick as int, tick as int);
                if tick as int + 1 > max_abs_tick as int {
                    assert(spec_ascend(sqrt_price_x64 as int, max_abs_tick as int, tick as int + 1)
                        == max_abs_tick as int);
                }
            }
        }
        max_abs_tick
    } else {
        let neg_max: i32 = -max_abs_tick;
        while tick > neg_max
            invariant
                tick <= 0,
                tick < 0 ==> tick >= neg_max,
                neg_max as int == -(max_abs_tick as int),
                sqrt_price_x64 < ONE_X64,
                current as int == spec_down_factor((-(tick as int)) as nat),
                spec_descend(sqrt_price_x64 as int, max_abs_tick as int, 1) == (
                if tick > neg_max {
                    spec_descend(sqrt_price_x64 as int, max_abs_tick as int, -(tick as int) + 1)
                } else {
                    -(max_abs_tick as int)
                }),
            decreases tick - neg_max,
        {
            current = div_q64(current, SQRT_1_0001_X64);
            tick = tick - 1;
            if current <= sqrt_price_x64 {
                proof {
                    assert(spec_descend(sqrt_price_x64 as int, max_abs_tick as int, -(tick as int))
                        == tick as int);
                }
                return tick;
            }
            proof {
                lemma_descend_step(sqrt_price_x64 as int, max_abs_tick as int, -(tick as int));
                if -(tick as int) + 1 > max_abs_tick as int {
                    assert(spec_descend(
                        sqrt_price_x64 as int,
                        max_abs_tick as int,
                        -(tick as int) + 1,
                    ) == -(max_abs_tick as int));
                }
            }
        }
        neg_max
    }
}

/// sqrt_price_x64 -> tick with the engine's default search budget.
pub fn sqrt_price_to_tick(sqrt_price_x64: u128) -> (r: i32)
    ensures
        r as int == spec_sqrt_price_to_tick(sqrt_price_x64 as int, 10000),
{
    sqrt_price_x64_to_tick(sqrt_price_x64, 10000)
}

/// price = sqrt_price^2, as a saturating Q64.64 product.
pub fn sqrt_price_x64_to_price_x64(sqrt_price_x64: u128) -> (r: u128)
    ensures
        r as int == spec_mul_q64(sqrt_price_x64 as int, sqrt_price_x64 as int),
{
    mul_q64(sqrt_price_x64, sqrt_price_x64)
}

/// Law: the conversion maps tick zero to exactly `2^64`, and the inverse
/// search recovers tick zero from it exactly, for any search budget.
pub proof fn lemma_round_trip_at_zero(max_abs_tick: int)
    ensures
        spec_tick_to_sqrt_price(0) == ONE_X64 as int,
        spec_sqrt_price_to_tick(spec_tick_to_sqrt_price(0), max_abs_tick) == 0,
{
}

} // verus!
