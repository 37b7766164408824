use clmm_pool::math::{
    add_delta, compute_swap_step, get_amounts_for_liquidity, get_liquidity_for_amount0,
    get_liquidity_for_amount1, sub_delta,
};
use clmm_pool::pool::init_pool;
use clmm_pool::position::Position;
use clmm_pool::swap::{apply_simple_price_move, cross_tick, swap, swap_fee_amounts};
use clmm_pool::tick::{find_next_initialized_tick, TickInfo, TickRegistry};
use clmm_pool::{Address, Error};

const ONE: u128 = 18446744073709551616;

#[test]
fn delta_helpers() {
    assert_eq!(add_delta(40, 2), 42);
    assert_eq!(add_delta(-40, 2), -38);
    assert_eq!(sub_delta(40, 2), 38);
    assert_eq!(sub_delta(2, 40), -38);
}

#[test]
fn liquidity_math_reports_zero() {
    assert_eq!(get_amounts_for_liquidity(1000, ONE, 2 * ONE, ONE), (0, 0));
    assert_eq!(get_liquidity_for_amount0(500, ONE, 2 * ONE), 0);
    assert_eq!(get_liquidity_for_amount1(500, ONE, 2 * ONE), 0);
}

#[test]
fn swap_step_is_the_unit_step() {
    assert_eq!(compute_swap_step(3 * ONE, 1000, ONE, true), (3 * ONE, 1, 1, true));
    assert_eq!(compute_swap_step(7, -2, 0, false), (7, 1, 1, true));
}

#[test]
fn fee_is_floored_basis_points() {
    assert_eq!(swap_fee_amounts(100, 30), Ok((0, 100)));
    assert_eq!(swap_fee_amounts(10_000, 30), Ok((30, 9970)));
    assert_eq!(swap_fee_amounts(7, 5000), Ok((3, 4)));
    assert_eq!(swap_fee_amounts(0, 30), Err(Error::InvalidAmount));
    assert_eq!(swap_fee_amounts(-1, 30), Err(Error::InvalidAmount));
    // a 100% fee consumes the whole trade
    assert_eq!(swap_fee_amounts(5, 10000), Err(Error::InvalidAmount));
}

#[test]
fn next_tick_steps_one_spacing() {
    assert_eq!(find_next_initialized_tick(0, 60, true), -60);
    assert_eq!(find_next_initialized_tick(0, 60, false), 60);
    assert_eq!(find_next_initialized_tick(-180, 60, true), -240);
    assert_eq!(find_next_initialized_tick(33, 10, false), 43);
}

#[test]
fn init_pool_validates_spacing() {
    assert_eq!(init_pool(ONE, 5, 0, Address(1), Address(2)), Err(Error::InvalidConfig));
    let p = init_pool(ONE, 5, 60, Address(1), Address(2)).unwrap();
    assert_eq!(p.sqrt_price_x64, ONE);
    assert_eq!(p.current_tick, 5);
    assert_eq!(p.liquidity, 0);
    assert_eq!(p.tick_spacing, 60);
}

#[test]
fn registry_reads_zero_for_absent_ticks() {
    let reg = TickRegistry::new();
    let info = reg.read_tick_info(12345);
    assert_eq!(info.liquidity_gross, 0);
    assert_eq!(info.liquidity_net, 0);
}

#[test]
fn registry_upserts() {
    let mut reg = TickRegistry::new();
    reg.write_tick_info(-60, TickInfo { liquidity_gross: 10, liquidity_net: 7 });
    reg.write_tick_info(60, TickInfo { liquidity_gross: 10, liquidity_net: -7 });
    reg.write_tick_info(-60, TickInfo { liquidity_gross: 11, liquidity_net: 8 });
    assert_eq!(reg.read_tick_info(-60).liquidity_net, 8);
    assert_eq!(reg.read_tick_info(-60).liquidity_gross, 11);
    assert_eq!(reg.read_tick_info(60).liquidity_net, -7);
    assert_eq!(reg.read_tick_info(0).liquidity_gross, 0);
}

#[test]
fn registry_update_tick_applies_boundary_sign() {
    let mut reg = TickRegistry::new();
    reg.update_tick(-60, 100, false);
    reg.update_tick(60, 100, true);
    assert_eq!(reg.read_tick_info(-60).liquidity_gross, 100);
    assert_eq!(reg.read_tick_info(-60).liquidity_net, 100);
    assert_eq!(reg.read_tick_info(60).liquidity_gross, 100);
    assert_eq!(reg.read_tick_info(60).liquidity_net, -100);
}

#[test]
fn position_withdraw_refuses_overdraw() {
    let mut pos = Position { liquidity: 10, token_a_amount: 30, token_b_amount: 40 };
    assert_eq!(pos.withdraw(11), Err(Error::InsufficientLiquidity));
    assert_eq!(pos.withdraw(0), Err(Error::InvalidAmount));
    assert_eq!(pos.liquidity, 10);
    let (a, b) = pos.withdraw(5).unwrap();
    assert_eq!((a, b), (15, 20));
    assert_eq!(pos.liquidity, 5);
    assert_eq!(pos.token_a_amount, 15);
    assert_eq!(pos.token_b_amount, 20);
}

#[test]
fn position_deposit_accumulates() {
    let mut pos = Position::zero();
    pos.deposit(100, 7, 9);
    pos.deposit(50, 3, 1);
    assert_eq!(pos.liquidity, 150);
    assert_eq!(pos.token_a_amount, 10);
    assert_eq!(pos.token_b_amount, 10);
}

#[test]
fn price_move_on_empty_pool_is_a_no_op() {
    let mut p = init_pool(ONE, 0, 60, Address(1), Address(2)).unwrap();
    apply_simple_price_move(&mut p, 100, true);
    assert_eq!(p.sqrt_price_x64, ONE);
}

#[test]
fn price_move_clamps_large_trades() {
    let mut p = init_pool(ONE, 0, 60, Address(1), Address(2)).unwrap();
    p.liquidity = 1000;
    // 10x the liquidity: the ratio clamps at 10%, delta at 0.5% of price
    apply_simple_price_move(&mut p, 10_000, true);
    assert_eq!(p.sqrt_price_x64, ONE - 92233720368547758);
    assert!(ONE - p.sqrt_price_x64 <= ONE / 20);
}

#[test]
fn cross_tick_shifts_liquidity_by_net() {
    let mut reg = TickRegistry::new();
    reg.write_tick_info(-60, TickInfo { liquidity_gross: 40, liquidity_net: 40 });
    let mut p = init_pool(ONE, 0, 60, Address(1), Address(2)).unwrap();
    p.liquidity = 500;
    cross_tick(&reg, -60, &mut p, true);
    assert_eq!(p.liquidity, 460);
    assert_eq!(p.current_tick, -60);
    cross_tick(&reg, -60, &mut p, false);
    assert_eq!(p.liquidity, 500);
}

#[test]
fn walking_swap_crosses_one_tick_per_unit() {
    let mut reg = TickRegistry::new();
    reg.write_tick_info(-60, TickInfo { liquidity_gross: 40, liquidity_net: 40 });
    reg.write_tick_info(-120, TickInfo { liquidity_gross: 10, liquidity_net: -10 });
    let mut p = init_pool(ONE, 0, 60, Address(1), Address(2)).unwrap();
    p.liquidity = 500;
    let res = swap(&mut p, &reg, 3, true, 1).unwrap();
    assert_eq!(res.amount_in, 3);
    assert_eq!(res.amount_out, 3);
    // three crossings: -60 (net 40), -120 (net -10), -180 (absent)
    assert_eq!(p.current_tick, -180);
    assert_eq!(p.liquidity, 500 - 40 + 10);
    // the unit step never moves the price
    assert_eq!(p.sqrt_price_x64, ONE);
    assert_eq!(res.current_tick, -180);
    assert_eq!(res.sqrt_price_x64, ONE);
}

#[test]
fn walking_swap_stops_at_price_limit() {
    let mut reg = TickRegistry::new();
    reg.write_tick_info(-60, TickInfo { liquidity_gross: 40, liquidity_net: 40 });
    let mut p = init_pool(ONE, 0, 60, Address(1), Address(2)).unwrap();
    p.liquidity = 500;
    // the price already sits at the limit, so exactly one step runs
    let res = swap(&mut p, &reg, 5, true, 2 * ONE).unwrap();
    assert_eq!(res.amount_in, 1);
    assert_eq!(res.amount_out, 1);
    assert_eq!(p.current_tick, -60);
    assert_eq!(p.liquidity, 460);
}

#[test]
fn walking_swap_rejects_nonpositive_amount() {
    let reg = TickRegistry::new();
    let mut p = init_pool(ONE, 0, 60, Address(1), Address(2)).unwrap();
    assert_eq!(swap(&mut p, &reg, 0, true, 0), Err(Error::InvalidAmount));
    assert_eq!(p.current_tick, 0);
}
