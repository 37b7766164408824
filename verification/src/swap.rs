//! Swap execution: the bounded simple price move and the tick-walking loop.

use vstd::prelude::*;
use vstd::arithmetic::div_mod::{
    lemma_div_is_ordered, lemma_div_multiples_vanish, lemma_div_pos_is_pos,
    lemma_fundamental_div_mod, lemma_mod_division_less_than_divisor,
};
use vstd::arithmetic::mul::{
    lemma_mul_inequality, lemma_mul_inequality_converse, lemma_mul_is_associative,
    lemma_mul_is_commutative, lemma_mul_nonnegative,
};
use crate::Error;
use crate::math::compute_swap_step;
use crate::pool::{PoolState, PoolView};
use crate::tick::{TickRegistry, TickView, spec_next_tick, find_next_initialized_tick};
use crate::tick_math::{ONE_X64, sat_mul, sat_u128, tick_to_sqrt_price_x64};

verus! {

/// The outcome of a swap: what was taken in, what was paid out, and the pool
/// price and tick after the trade.
#[derive(Clone, Copy, Debug, PartialEq, Eq, Structural)]
pub struct SwapResult {
    pub amount_in: i128,
    pub amount_out: i128,
    pub sqrt_price_x64: u128,
    pub current_tick: i32,
}

/// Magnitude of a signed quantity.
pub open spec fn spec_abs(x: int) -> int {
    if x < 0 {
        -x
    } else {
        x
    }
}

/// Trade size relative to liquidity in Q64.64, clamped to 10%.
pub open spec fn spec_clamped_ratio(amount_in: int, liquidity: int) -> int
    recommends
        liquidity != 0,
{
    let ratio = sat_u128(spec_abs(amount_in) * (ONE_X64 as int)) / spec_abs(liquidity);
    if ratio > (ONE_X64 as int) / 10 {
        (ONE_X64 as int) / 10
    } else {
        ratio
    }
}

/// The sqrt-price movement of one simplified swap: proportional to the
/// clamped trade ratio, about 0.5% of the current sqrt price at the 10%
/// clamp, and at least one unit so a trade always registers.
pub open spec fn spec_price_delta(sqrt_price: int, amount_in: int, liquidity: int) -> int {
    let d = sat_u128(sqrt_price * spec_clamped_ratio(amount_in, liquidity)) / (20 * (
    ONE_X64 as int));
    if d == 0 {
        1
    } else {
        d
    }
}

/// The sqrt price after one simplified swap: unchanged on an empty pool,
/// otherwise moved down by the bounded delta when selling token0
/// (`zero_for_one`) and up otherwise, saturating at the type bounds.
pub open spec fn spec_moved_price(pool: PoolView, amount_in: int, zero_for_one: bool) -> int {
    if spec_abs(pool.liquidity) == 0 {
        pool.sqrt_price_x64
    } else {
        let d = spec_price_delta(pool.sqrt_price_x64, amount_in, pool.liquidity);
        if zero_for_one {
            if pool.sqrt_price_x64 - d < 0 {
                0
            } else {
                pool.sqrt_price_x64 - d
            }
        } else {
            if pool.sqrt_price_x64 + d > u128::MAX as int {
                u128::MAX as int
            } else {
                pool.sqrt_price_x64 + d
            }
        }
    }
}

/// The swap fee in basis points, by integer floor division.
pub open spec fn spec_fee(amount: int, fee_bps: int) -> int {
    amount * fee_bps / 10000
}

/// The fee charged and the amount paid out by a simplified swap of
/// `amount_in` at `fee_bps`: the floor fee is kept, the rest is paid
/// one-for-one. Refuses with `InvalidAmount` a non-positive trade, or one
/// the fee consumes entirely.
pub fn swap_fee_amounts(amount_in: i128, fee_bps: u32) -> (r: Result<(i128, i128), Error>)
    requires
        amount_in > 0 ==> amount_in * fee_bps <= i128::MAX,
    ensures
        amount_in <= 0 ==> r == Err::<(i128, i128), Error>(Error::InvalidAmount),
        amount_in > 0 ==> ({
            let fee = spec_fee(amount_in as int, fee_bps as int);
            let out = amount_in - fee;
            &&& out <= 0 ==> r == Err::<(i128, i128), Error>(Error::InvalidAmount)
            &&& out > 0 ==> (r matches Ok(x) && x.0 == fee && x.1 == out)
        }),
{
    if amount_in <= 0 {
        return Err(Error::InvalidAmount);
    }
    let fee: i128 = amount_in * (fee_bps as i128) / 10000;
    let amount_after_fee: i128 = amount_in - fee;
    if amount_after_fee <= 0 {
        return Err(Error::InvalidAmount);
    }
    Ok((fee, amount_after_fee))
}

/// Move the pool's sqrt price for a simplified swap of `amount_in`, leaving
/// tick, liquidity and configuration untouched. Selling token0
/// (`zero_for_one`) pushes the token1-per-token0 price down; the other
/// direction pushes it up.
pub fn apply_simple_price_move(pool: &mut PoolState, amount_in: i128, zero_for_one: bool)
    requires
        old(pool)@.liquidity != i128::MIN as int,
        amount_in != i128::MIN,
    ensures
        final(pool)@ == (PoolView {
            sqrt_price_x64: spec_moved_price(old(pool)@, amount_in as int, zero_for_one),
            ..old(pool)@
        }),
{
    let liq_u: u128 = if pool.liquidity < 0 {
        (-pool.liquidity) as u128
    } else {
        pool.liquidity as u128
    };
    if liq_u == 0 {
        return ;
    }
    let abs_in: u128 = if amount_in < 0 {
        (-amount_in) as u128
    } else {
        amount_in as u128
    };
    let trade_ratio_x64: u128 = sat_mul(abs_in, ONE_X64) / liq_u;
    let max_ratio_x64: u128 = ONE_X64 / 10;
    let r: u128 = if trade_ratio_x64 > max_ratio_x64 {
        max_ratio_x64
    } else {
        trade_ratio_x64
    };
    let mut delta_sqrt: u128 = sat_mul(pool.sqrt_price_x64, r) / (20 * ONE_X64);
    if delta_sqrt == 0 {
        delta_sqrt = 1;
    }
    if zero_for_one {
        pool.sqrt_price_x64 = pool.sqrt_price_x64.saturating_sub(delta_sqrt);
    } else {
        pool.sqrt_price_x64 = pool.sqrt_price_x64.saturating_add(delta_sqrt);
    }
}

/// Law: one simplified swap moves the sqrt price by at most 5% of its
/// current value, whatever the trade size; in particular this covers trades
/// of 10% of the pool's liquidity or more, where the ratio clamp engages.
pub proof fn lemma_price_move_capped(pool: PoolView, amount_in: int, zero_for_one: bool)
    requires
        pool.liquidity != 0,
        200 <= pool.sqrt_price_x64 <= u128::MAX as int,
    ensures
        spec_abs(spec_moved_price(pool, amount_in, zero_for_one) - pool.sqrt_price_x64)
            <= pool.sqrt_price_x64 / 20,
{
    let p = pool.sqrt_price_x64;
    let one = ONE_X64 as int;
    let q = one / 10;
    let r = spec_clamped_ratio(amount_in, pool.liquidity);
    let qq = 20 * one;
    let s = sat_u128(p * r);
    let d0 = s / qq;
    let d = spec_price_delta(p, amount_in, pool.liquidity);

    // the clamped ratio is between 0 and one tenth
    assert(0 <= r <= q) by {
        let num = sat_u128(spec_abs(amount_in) * one);
        assert(num >= 0) by {
            lemma_mul_nonnegative(spec_abs(amount_in), one);
        }
        lemma_div_pos_is_pos(num, spec_abs(pool.liquidity));
    }

    // qq * d0 <= s <= p * r <= p * q
    lemma_fundamental_div_mod(s, qq);
    lemma_mod_division_less_than_divisor(s, qq);
    assert(qq * d0 <= s);
    assert(s <= p * r) by {
        lemma_mul_nonnegative(p, r);
    }
    assert(p * r <= p * q) by {
        lemma_mul_inequality(r, q, p);
        lemma_mul_is_commutative(r, p);
        lemma_mul_is_commutative(q, p);
    }

    // multiply through by 10: 200 * one * d0 <= p * one, so 200 * d0 <= p
    assert(10 * (qq * d0) <= 10 * (p * q)) by {
        lemma_mul_inequality(qq * d0, p * q, 10);
        lemma_mul_is_commutative(qq * d0, 10);
        lemma_mul_is_commutative(p * q, 10);
    }
    assert(10 * (p * q) <= p * one) by {
        lemma_fundamental_div_mod(one, 10);
        lemma_mod_division_less_than_divisor(one, 10);
        assert(10 * q <= one);
        lemma_mul_inequality(10 * q, one, p);
        lemma_mul_is_commutative(10 * q, p);
        lemma_mul_is_associative(p, 10, q);
        lemma_mul_is_commutative(p, 10);
        lemma_mul_is_associative(10, p, q);
        lemma_mul_is_commutative(one, p);
    }
    assert(10 * (qq * d0) == (200 * d0) * one) by {
        lemma_mul_is_associative(10, qq, d0);
        assert(10 * qq == 200 * one);
        lemma_mul_is_associative(200, one, d0);
        lemma_mul_is_commutative(one, d0);
        lemma_mul_is_associative(200, d0, one);
    }
    assert((200 * d0) * one <= p * one);
    assert(200 * d0 <= p) by {
        lemma_mul_inequality_converse(200 * d0, p, one);
    }
    assert(d0 <= p / 200) by {
        lemma_div_is_ordered(200 * d0, p, 200);
        lemma_mul_is_commutative(200, d0);
        lemma_div_multiples_vanish(d0, 200);
    }

    // so the delta, at least 1, is at most 5% of the sqrt price
    assert(p / 200 <= p / 20) by {
        vstd::arithmetic::div_mod::lemma_div_is_ordered_by_denominator(p, 20, 200);
    }
    assert(1 <= p / 20) by {
        lemma_div_is_ordered(20, p, 20);
        lemma_div_multiples_vanish(1, 20);
    }
    assert(d <= p / 20);
    assert(p / 20 <= p) by {
        vstd::arithmetic::div_mod::lemma_div_is_ordered_by_denominator(p, 1, 20);
        lemma_div_multiples_vanish(p, 1);
    }
    let moved = spec_moved_price(pool, amount_in, zero_for_one);
    if zero_for_one {
        assert(moved == p - d);
    } else if p + d > u128::MAX as int {
        assert(moved == u128::MAX as int);
        assert(0 <= moved - p < d);
    } else {
        assert(moved == p + d);
    }
}

/// The pool after crossing `tick`: aggregate liquidity shifted by the tick's
/// net (subtracted moving down, added moving up) and the current tick set.
pub open spec fn spec_crossed(pool: PoolView, net: int, tick: int, zero_for_one: bool)
    -> PoolView {
    PoolView {
        liquidity: if zero_for_one {
            pool.liquidity - net
        } else {
            pool.liquidity + net
        },
        current_tick: tick,
        ..pool
    }
}

/// Cross `tick`: apply its net liquidity delta to the pool (subtracting when
/// moving down) and make it the current tick. Must be invoked exactly once
/// per boundary traversal.
pub fn cross_tick(ticks: &TickRegistry, tick: i32, pool: &mut PoolState, zero_for_one: bool)
    requires
        zero_for_one ==> i128::MIN <= old(pool)@.liquidity - ticks@[
            tick as int
        ].liquidity_net <= i128::MAX,
        !zero_for_one ==> i128::MIN <= old(pool)@.liquidity + ticks@[
            tick as int
        ].liquidity_net <= i128::MAX,
    ensures
        final(pool)@ == spec_crossed(
            old(pool)@,
            ticks@[tick as int].liquidity_net,
            tick as int,
            zero_for_one,
        ),
{
    let info = ticks.read_tick_info(tick);
    if zero_for_one {
        pool.liquidity = pool.liquidity - info.liquidity_net;
    } else {
        pool.liquidity = pool.liquidity + info.liquidity_net;
    }
    pool.current_tick = tick;
}

/// The tick reached after `k` one-spacing steps in the direction of travel.
pub open spec fn spec_walk_tick(t0: int, spacing: int, down: bool, k: nat) -> int
    decreases k,
{
    if k == 0 {
        t0
    } else {
        spec_next_tick(spec_walk_tick(t0, spacing, down, (k - 1) as nat), spacing, down)
    }
}

/// The aggregate liquidity after crossing the first `k` ticks of the walk.
pub open spec fn spec_walk_liquidity(
    ticks: Map<int, TickView>,
    l0: int,
    t0: int,
    spacing: int,
    down: bool,
    k: nat,
) -> int
    decreases k,
{
    if k == 0 {
        l0
    } else {
        let prev = spec_walk_liquidity(ticks, l0, t0, spacing, down, (k - 1) as nat);
        let net = ticks[spec_walk_tick(t0, spacing, down, k)].liquidity_net;
        if down {
            prev - net
        } else {
            prev + net
        }
    }
}

/// Whether the sqrt price has reached or passed the stop price in the
/// direction of travel.
pub open spec fn spec_limit_reached(sqrt_price: int, limit: int, down: bool) -> bool {
    if down {
        sqrt_price <= limit
    } else {
        sqrt_price >= limit
    }
}

/// How many unit steps the tick-walking loop takes: one when the price
/// already sits at or past the stop price, otherwise the full requested
/// amount (each step consumes one unit).
pub open spec fn spec_swap_step_count(amount: int, sqrt_price: int, limit: int, down: bool)
    -> int {
    if spec_limit_reached(sqrt_price, limit, down) {
        1
    } else {
        amount
    }
}

/// Every intermediate tick and liquidity value of the walk stays within its
/// machine type.
pub open spec fn spec_swap_walk_fits(
    ticks: Map<int, TickView>,
    pool: PoolView,
    amount: int,
    zero_for_one: bool,
    limit: int,
) -> bool {
    forall|k: int|
        1 <= k <= spec_swap_step_count(amount, pool.sqrt_price_x64, limit, zero_for_one)
            ==> (i32::MIN <= #[trigger] spec_walk_tick(
            pool.current_tick,
            pool.tick_spacing,
            zero_for_one,
            k as nat,
        ) <= i32::MAX && i128::MIN <= spec_walk_liquidity(
            ticks,
            pool.liquidity,
            pool.current_tick,
            pool.tick_spacing,
            zero_for_one,
            k as nat,
        ) <= i128::MAX)
}

/// The tick-walking swap state machine. Each step consults the next tick
/// boundary in the direction of travel, exchanges one unit, and crosses the
/// boundary, until the requested amount is consumed or the price sits at or
/// past `sqrt_price_limit_x64`. The sqrt price itself does not move in this
/// version: the step function reports the entry price unchanged.
pub fn swap(
    pool: &mut PoolState,
    ticks: &TickRegistry,
    amount_specified: i128,
    zero_for_one: bool,
    sqrt_price_limit_x64: u128,
) -> (r: Result<SwapResult, Error>)
    requires
        amount_specified > 0 ==> spec_swap_walk_fits(
            ticks@,
            old(pool)@,
            amount_specified as int,
            zero_for_one,
            sqrt_price_limit_x64 as int,
        ),
    ensures
        amount_specified <= 0 ==> r == Err::<SwapResult, Error>(Error::InvalidAmount)
            && *final(pool) == *old(pool),
        amount_specified > 0 ==> ({
            let n = spec_swap_step_count(
                amount_specified as int,
                old(pool)@.sqrt_price_x64,
                sqrt_price_limit_x64 as int,
                zero_for_one,
            );
            let end_tick = spec_walk_tick(
                old(pool)@.current_tick,
                old(pool)@.tick_spacing,
                zero_for_one,
                n as nat,
            );
            &&& final(pool)@ == (PoolView {
                current_tick: end_tick,
                liquidity: spec_walk_liquidity(
                    ticks@,
                    old(pool)@.liquidity,
                    old(pool)@.current_tick,
                    old(pool)@.tick_spacing,
                    zero_for_one,
                    n as nat,
                ),
                ..old(pool)@
            })
            &&& r matches Ok(res) && res.amount_in as int == n && res.amount_out as int == n
                && res.sqrt_price_x64 == old(pool)@.sqrt_price_x64 && res.current_tick as int
                == end_tick
        }),
{
    if amount_specified <= 0 {
        return Err(Error::InvalidAmount);
    }
    let mut amount_remaining: i128 = amount_specified;
    let mut amount_calculated: i128 = 0;
    let mut sqrt_price: u128 = pool.sqrt_price_x64;
    let mut liquidity: i128 = pool.liquidity;
    let mut current_tick: i32 = pool.current_tick;
    let ghost pv0 = old(pool)@;
    let ghost t0 = old(pool)@.current_tick;
    let ghost l0 = old(pool)@.liquidity;
    let ghost p0 = old(pool)@.sqrt_price_x64;
    let ghost spacing = old(pool)@.tick_spacing;
    let ghost tmap = ticks@;
    let ghost n = spec_swap_step_count(
        amount_specified as int,
        p0,
        sqrt_price_limit_x64 as int,
        zero_for_one,
    );
    let ghost mut i: int = 0;
    loop
        invariant_except_break
            0 <= i < n,
        invariant
            amount_specified > 0,
            n == spec_swap_step_count(
                amount_specified as int,
                p0,
                sqrt_price_limit_x64 as int,
                zero_for_one,
            ),
            1 <= n <= amount_specified,
            i <= n,
            tmap == ticks@,
            pv0 == old(pool)@,
            pv0.current_tick == t0,
            pv0.liquidity == l0,
            pv0.sqrt_price_x64 == p0,
            pv0.tick_spacing == spacing,
            spec_swap_walk_fits(
                tmap,
                pv0,
                amount_specified as int,
                zero_for_one,
                sqrt_price_limit_x64 as int,
            ),
            amount_remaining as int == amount_specified as int - i,
            amount_calculated as int == i,
            sqrt_price as int == p0,
            current_tick as int == spec_walk_tick(t0, spacing, zero_for_one, i as nat),
            liquidity as int == spec_walk_liquidity(
                tmap,
                l0,
                t0,
                spacing,
                zero_for_one,
                i as nat,
            ),
            pool@ == (PoolView {
                current_tick: current_tick as int,
                liquidity: liquidity as int,
                sqrt_price_x64: p0,
                ..old(pool)@
            }),
        ensures
            i == n,
            tmap == ticks@,
            amount_remaining as int == amount_specified as int - n,
            amount_calculated as int == n,
            sqrt_price as int == p0,
            current_tick as int == spec_walk_tick(t0, spacing, zero_for_one, n as nat),
            liquidity as int == spec_walk_liquidity(tmap, l0, t0, spacing, zero_for_one, n as nat),
            pool@ == (PoolView {
                current_tick: current_tick as int,
                liquidity: liquidity as int,
                sqrt_price_x64: p0,
                ..old(pool)@
            }),
        decreases amount_specified as int - i,
    {
        proof {
            assert(1 <= i + 1 <= n);
            assert(i32::MIN <= spec_walk_tick(t0, spacing, zero_for_one, (i + 1) as nat)
                <= i32::MAX && i128::MIN <= spec_walk_liquidity(
                tmap,
                l0,
                t0,
                spacing,
                zero_for_one,
                (i + 1) as nat,
            ) <= i128::MAX);
            assert(spec_walk_tick(t0, spacing, zero_for_one, (i + 1) as nat) == spec_next_tick(
                spec_walk_tick(t0, spacing, zero_for_one, i as nat),
                spacing,
                zero_for_one,
            ));
            assert(spec_walk_liquidity(tmap, l0, t0, spacing, zero_for_one, (i + 1) as nat) == (
            {
                let prev = spec_walk_liquidity(tmap, l0, t0, spacing, zero_for_one, i as nat);
                let net = tmap[spec_walk_tick(t0, spacing, zero_for_one, (i + 1) as nat)]
                    .liquidity_net;
                if zero_for_one {
                    prev - net
                } else {
                    prev + net
                }
            }));
        }
        let next_initialized_tick = find_next_initialized_tick(
            current_tick,
            pool.tick_spacing,
            zero_for_one,
        );
        let target_sqrt_price = tick_to_sqrt_price_x64(next_initialized_tick);
        let (next_sqrt_price, step_in, step_out, reached_boundary) = compute_swap_step(
            sqrt_price,
            liquidity,
            target_sqrt_price,
            zero_for_one,
        );
        amount_remaining = amount_remaining - step_in;
        amount_calculated = amount_calculated + step_out;
        sqrt_price = next_sqrt_price;
        if reached_boundary {
            cross_tick(ticks, next_initialized_tick, pool, zero_for_one);
            current_tick = pool.current_tick;
            liquidity = pool.liquidity;
        }
        proof {
            i = i + 1;
        }
        if amount_remaining <= 0 {
            break ;
        }
        if zero_for_one && sqrt_price <= sqrt_price_limit_x64 {
            break ;
        }
        if !zero_for_one && sqrt_price >= sqrt_price_limit_x64 {
            break ;
        }
    }
    pool.sqrt_price_x64 = sqrt_price;
    pool.current_tick = current_tick;
    pool.liquidity = liquidity;
    Ok(
        SwapResult {
            amount_in: amount_specified - amount_remaining,
            amount_out: amount_calculated,
            sqrt_price_x64: sqrt_price,
            current_tick,
        },
    )
}

} // verus!
