//! Signed liquidity-delta helpers and the per-step swap arithmetic surface.

use vstd::prelude::*;

verus! {

/// `a + b` on signed liquidity magnitudes.
pub fn add_delta(a: i128, b: i128) -> (r: i128)
    requires
        i128::MIN <= a + b <= i128::MAX,
    ensures
        r == a + b,
{
    a + b
}

/// `a - b` on signed liquidity magnitudes.
pub fn sub_delta(a: i128, b: i128) -> (r: i128)
    requires
        i128::MIN <= a - b <= i128::MAX,
    ensures
        r == a - b,
{
    a - b
}

/// The token amounts owed for `liquidity` in a range. This version records no
/// curve-derived claim: it reports zero for both tokens, and position
/// bookkeeping carries the caller-supplied amounts instead.
pub fn get_amounts_for_liquidity(
    liquidity: i128,
    sqrt_price_lower: u128,
    sqrt_price_upper: u128,
    current_sqrt_price: u128,
) -> (r: (i128, i128))
    ensures
        r == (0i128, 0i128),
{
    let _ = liquidity;
    let _ = sqrt_price_lower;
    let _ = sqrt_price_upper;
    let _ = current_sqrt_price;
    (0, 0)
}

/// The liquidity purchasable with `amount0`. This version reports zero:
/// liquidity is supplied directly by the caller rather than derived.
pub fn get_liquidity_for_amount0(
    amount0: i128,
    sqrt_price_lower: u128,
    sqrt_price_upper: u128,
) -> (r: i128)
    ensures
        r == 0,
{
    let _ = amount0;
    let _ = sqrt_price_lower;
    let _ = sqrt_price_upper;
    0
}

/// The liquidity purchasable with `amount1`. This version reports zero:
/// liquidity is supplied directly by the caller rather than derived.
pub fn get_liquidity_for_amount1(
    amount1: i128,
    sqrt_price_lower: u128,
    sqrt_price_upper: u128,
) -> (r: i128)
    ensures
        r == 0,
{
    let _ = amount1;
    let _ = sqrt_price_lower;
    let _ = sqrt_price_upper;
    0
}

/// One step of the tick-walking swap loop: the new sqrt price, the input
/// consumed, the output produced, and whether the step reached the target
/// tick's boundary. This version is the fixed unit step: the price does not
/// move, one unit is consumed and produced, and the boundary is always
/// reported reached, so every step crosses the next tick.
pub fn compute_swap_step(
    sqrt_price_current: u128,
    liquidity: i128,
    sqrt_price_target: u128,
    zero_for_one: bool,
) -> (r: (u128, i128, i128, bool))
    ensures
        r == (sqrt_price_current, 1i128, 1i128, true),
{
    let _ = liquidity;
    let _ = sqrt_price_target;
    let _ = zero_for_one;
    (sqrt_price_current, 1, 1, true)
}

} // verus!
