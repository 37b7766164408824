use clmm_pool::{Address, ClmmPool, Error};

const ONE: u128 = 18446744073709551616;

fn parity_pool() -> ClmmPool {
    let mut engine = ClmmPool::new();
    engine
        .initialize(Address(1), Address(10), Address(11), 30, 0, 0, 60)
        .unwrap();
    engine
}

#[test]
fn initialize_rejects_identical_tokens() {
    let mut engine = ClmmPool::new();
    let r = engine.initialize(Address(1), Address(10), Address(10), 30, 0, 0, 60);
    assert_eq!(r, Err(Error::InvalidConfig));
    assert_eq!(engine.get_pool_state(), Err(Error::NotInitialized));
    assert_eq!(engine.get_pool_config(), Err(Error::NotInitialized));
}

#[test]
fn initialize_rejects_nonpositive_tick_spacing() {
    let mut engine = ClmmPool::new();
    let r = engine.initialize(Address(1), Address(10), Address(11), 30, 0, 0, 0);
    assert_eq!(r, Err(Error::InvalidConfig));
    let r = engine.initialize(Address(1), Address(10), Address(11), 30, 0, 0, -60);
    assert_eq!(r, Err(Error::InvalidConfig));
    assert_eq!(engine.get_pool_state(), Err(Error::NotInitialized));
}

#[test]
fn initialize_rejects_zero_fee() {
    let mut engine = ClmmPool::new();
    let r = engine.initialize(Address(1), Address(10), Address(11), 0, 0, 0, 60);
    assert_eq!(r, Err(Error::InvalidConfig));
    assert_eq!(engine.get_pool_state(), Err(Error::NotInitialized));
}

#[test]
fn initialize_rejects_second_initialization() {
    let mut engine = parity_pool();
    let r = engine.initialize(Address(2), Address(20), Address(21), 50, 0, 5, 10);
    assert_eq!(r, Err(Error::AlreadyInitialized));
    // the first configuration is untouched
    let cfg = engine.get_pool_config().unwrap();
    assert_eq!(cfg.fee_bps, 30);
    assert_eq!(cfg.admin, Address(1));
}

#[test]
fn initialize_defaults_zero_price_to_parity() {
    let engine = parity_pool();
    let ps = engine.get_pool_state().unwrap();
    assert_eq!(ps.sqrt_price_x64, ONE);
    assert_eq!(ps.current_tick, 0);
    assert_eq!(ps.liquidity, 0);
    assert_eq!(ps.tick_spacing, 60);
    assert_eq!(ps.token0, Address(10));
    assert_eq!(ps.token1, Address(11));
}

#[test]
fn initialize_keeps_explicit_price() {
    let mut engine = ClmmPool::new();
    engine
        .initialize(Address(1), Address(10), Address(11), 30, 3 * ONE, 7, 60)
        .unwrap();
    let ps = engine.get_pool_state().unwrap();
    assert_eq!(ps.sqrt_price_x64, 3 * ONE);
    assert_eq!(ps.current_tick, 7);
}

#[test]
fn add_liquidity_updates_all_four_stores() {
    let mut engine = parity_pool();
    engine
        .add_liquidity(Address(5), -120, 120, 1000, 500, 500)
        .unwrap();
    let ps = engine.get_pool_state().unwrap();
    assert_eq!(ps.liquidity, 1000);
    let lo = engine.get_tick_info(-120);
    assert_eq!(lo.liquidity_gross, 1000);
    assert_eq!(lo.liquidity_net, 1000);
    let up = engine.get_tick_info(120);
    assert_eq!(up.liquidity_gross, 1000);
    assert_eq!(up.liquidity_net, -1000);
    let pos = engine.get_position(Address(5), -120, 120);
    assert_eq!(pos.liquidity, 1000);
    assert_eq!(pos.token_a_amount, 500);
    assert_eq!(pos.token_b_amount, 500);
}

#[test]
fn add_liquidity_rejects_empty_range() {
    let mut engine = parity_pool();
    let r = engine.add_liquidity(Address(5), 120, 120, 1000, 500, 500);
    assert_eq!(r, Err(Error::InvalidRange));
    let r = engine.add_liquidity(Address(5), 120, -120, 1000, 500, 500);
    assert_eq!(r, Err(Error::InvalidRange));
    assert_eq!(engine.get_pool_state().unwrap().liquidity, 0);
}

#[test]
fn add_liquidity_rejects_nonpositive_liquidity() {
    let mut engine = parity_pool();
    let r = engine.add_liquidity(Address(5), -120, 120, 0, 500, 500);
    assert_eq!(r, Err(Error::InvalidAmount));
    let r = engine.add_liquidity(Address(5), -120, 120, -3, 500, 500);
    assert_eq!(r, Err(Error::InvalidAmount));
}

#[test]
fn add_liquidity_requires_initialization() {
    let mut engine = ClmmPool::new();
    let r = engine.add_liquidity(Address(5), -120, 120, 1000, 500, 500);
    assert_eq!(r, Err(Error::NotInitialized));
}

#[test]
fn add_then_remove_restores_everything() {
    let mut engine = parity_pool();
    engine
        .add_liquidity(Address(5), -120, 120, 1000, 500, 500)
        .unwrap();
    let (out_a, out_b) = engine
        .remove_liquidity(Address(5), -120, 120, 1000)
        .unwrap();
    // a fresh position refunds the deposit exactly
    assert_eq!(out_a, 500);
    assert_eq!(out_b, 500);
    let pos = engine.get_position(Address(5), -120, 120);
    assert_eq!(pos.liquidity, 0);
    assert_eq!(pos.token_a_amount, 0);
    assert_eq!(pos.token_b_amount, 0);
    // both boundaries return to their pre-add values
    let lo = engine.get_tick_info(-120);
    assert_eq!(lo.liquidity_gross, 0);
    assert_eq!(lo.liquidity_net, 0);
    let up = engine.get_tick_info(120);
    assert_eq!(up.liquidity_gross, 0);
    assert_eq!(up.liquidity_net, 0);
    assert_eq!(engine.get_pool_state().unwrap().liquidity, 0);
}

#[test]
fn partial_remove_pays_proportionally() {
    let mut engine = parity_pool();
    engine
        .add_liquidity(Address(5), -60, 60, 1000, 301, 99)
        .unwrap();
    let (out_a, out_b) = engine.remove_liquidity(Address(5), -60, 60, 250).unwrap();
    // floor(301 * 250 / 1000) and floor(99 * 250 / 1000)
    assert_eq!(out_a, 75);
    assert_eq!(out_b, 24);
    let pos = engine.get_position(Address(5), -60, 60);
    assert_eq!(pos.liquidity, 750);
    assert_eq!(pos.token_a_amount, 226);
    assert_eq!(pos.token_b_amount, 75);
}

#[test]
fn remove_more_than_held_fails_and_changes_nothing() {
    let mut engine = parity_pool();
    engine
        .add_liquidity(Address(5), -120, 120, 1000, 500, 500)
        .unwrap();
    let r = engine.remove_liquidity(Address(5), -120, 120, 1001);
    assert_eq!(r, Err(Error::InsufficientLiquidity));
    // every store is untouched
    let pos = engine.get_position(Address(5), -120, 120);
    assert_eq!(pos.liquidity, 1000);
    assert_eq!(pos.token_a_amount, 500);
    assert_eq!(pos.token_b_amount, 500);
    assert_eq!(engine.get_pool_state().unwrap().liquidity, 1000);
    assert_eq!(engine.get_tick_info(-120).liquidity_net, 1000);
    assert_eq!(engine.get_tick_info(120).liquidity_net, -1000);
}

#[test]
fn remove_from_absent_position_fails() {
    let mut engine = parity_pool();
    let r = engine.remove_liquidity(Address(9), -60, 60, 1);
    assert_eq!(r, Err(Error::InsufficientLiquidity));
}

#[test]
fn remove_rejects_nonpositive_liquidity() {
    let mut engine = parity_pool();
    let r = engine.remove_liquidity(Address(5), -60, 60, 0);
    assert_eq!(r, Err(Error::InvalidAmount));
}

#[test]
fn pool_liquidity_tracks_adds_minus_removes() {
    let mut engine = parity_pool();
    engine
        .add_liquidity(Address(5), -120, 120, 1000, 500, 500)
        .unwrap();
    engine.add_liquidity(Address(6), -60, 60, 400, 10, 10).unwrap();
    engine.remove_liquidity(Address(5), -120, 120, 300).unwrap();
    engine.add_liquidity(Address(5), -120, 120, 50, 5, 5).unwrap();
    // a refused removal contributes nothing
    assert_eq!(
        engine.remove_liquidity(Address(6), -60, 60, 500),
        Err(Error::InsufficientLiquidity)
    );
    engine.remove_liquidity(Address(6), -60, 60, 150).unwrap();
    // 1000 + 400 - 300 + 50 - 150
    assert_eq!(engine.get_pool_state().unwrap().liquidity, 1000);
}

#[test]
fn swap_rejects_nonpositive_amount() {
    let mut engine = parity_pool();
    assert_eq!(engine.swap(0, true, 0), Err(Error::InvalidAmount));
    assert_eq!(engine.swap(-5, true, 0), Err(Error::InvalidAmount));
}

#[test]
fn swap_requires_initialization() {
    let mut engine = ClmmPool::new();
    assert_eq!(engine.swap(100, true, 0), Err(Error::NotInitialized));
}

#[test]
fn swap_rejects_empty_pool() {
    let mut engine = parity_pool();
    assert_eq!(engine.swap(100, true, 0), Err(Error::NoLiquidity));
}

#[test]
fn swap_rejects_trade_consumed_by_fee() {
    let mut engine = ClmmPool::new();
    engine
        .initialize(Address(1), Address(10), Address(11), 10000, 0, 0, 60)
        .unwrap();
    engine
        .add_liquidity(Address(5), -120, 120, 1000, 500, 500)
        .unwrap();
    // a 100% fee leaves nothing to pay out
    assert_eq!(engine.swap(4, true, 0), Err(Error::InvalidAmount));
    assert_eq!(engine.get_pool_state().unwrap().sqrt_price_x64, ONE);
}

#[test]
fn swap_charges_floor_fee() {
    let mut engine = ClmmPool::new();
    engine
        .initialize(Address(1), Address(10), Address(11), 5000, 0, 0, 60)
        .unwrap();
    engine
        .add_liquidity(Address(5), -120, 120, 1000, 500, 500)
        .unwrap();
    let res = engine.swap(7, false, 0).unwrap();
    // fee = floor(7 * 5000 / 10000) = 3
    assert_eq!(res.amount_in, 7);
    assert_eq!(res.amount_out, 4);
}

#[test]
fn swap_scenario_parity_pool() {
    // initialize with tick spacing 60, fee 30 bps, parity price; add
    // liquidity 1000 over [-120, 120) with amounts (500, 500); swap 100
    // selling token0
    let mut engine = parity_pool();
    engine
        .add_liquidity(Address(5), -120, 120, 1000, 500, 500)
        .unwrap();
    let res = engine.swap(100, true, 0).unwrap();
    // fee = floor(100 * 30 / 10000) = 0, so the full amount is paid out
    assert_eq!(res.amount_in, 100);
    assert_eq!(res.amount_out, 100);
    let ps = engine.get_pool_state().unwrap();
    // no boundary crossed: aggregate liquidity and tick unchanged
    assert_eq!(ps.liquidity, 1000);
    assert_eq!(ps.current_tick, 0);
    // the trade is exactly 10% of liquidity, so the clamped ratio applies:
    // delta = floor(2^64 * floor(2^64 * 100 / 1000) / (20 * 2^64))
    let expected = ONE - 92233720368547758;
    assert_eq!(ps.sqrt_price_x64, expected);
    assert_eq!(res.sqrt_price_x64, expected);
    assert!(ps.sqrt_price_x64 < ONE);
    // capped at 5% of the current sqrt price
    assert!(ONE - ps.sqrt_price_x64 <= ONE / 20);
}

#[test]
fn swap_direction_moves_price_both_ways() {
    let mut engine = parity_pool();
    engine
        .add_liquidity(Address(5), -120, 120, 1000, 500, 500)
        .unwrap();
    engine.swap(10, false, 0).unwrap();
    let up = engine.get_pool_state().unwrap().sqrt_price_x64;
    assert!(up > ONE);
    engine.swap(10, true, 0).unwrap();
    let down = engine.get_pool_state().unwrap().sqrt_price_x64;
    assert!(down < up);
}

#[test]
fn tiny_swap_still_moves_price_one_unit() {
    let mut engine = parity_pool();
    engine
        .add_liquidity(Address(5), -120, 120, 1_000_000_000_000_000_000, 500, 500)
        .unwrap();
    let res = engine.swap(1, true, 0).unwrap();
    // the computed delta floors to zero and is bumped to one unit
    assert_eq!(res.sqrt_price_x64, ONE - 1);
}
