//! The global pool state and its static configuration.

use vstd::prelude::*;
use crate::Address;
use crate::Error;

verus! {

/// The mutable singleton of a pool: current price, tick, aggregate liquidity,
/// and the static parameters fixed at creation.
#[derive(Clone, Copy, Debug, PartialEq, Eq, Structural)]
pub struct PoolState {
    /// Square root of the token1-per-token0 price, Q64.64.
    pub sqrt_price_x64: u128,
    /// The tick index consistent with `sqrt_price_x64`.
    pub current_tick: i32,
    /// Aggregate liquidity active at the current tick; never negative in a
    /// well-formed pool, stored signed for arithmetic convenience.
    pub liquidity: i128,
    /// Minimum granularity between usable ticks; positive, fixed at creation.
    pub tick_spacing: i32,
    /// First asset of the pair.
    pub token0: Address,
    /// Second asset of the pair; differs from `token0`.
    pub token1: Address,
}

/// The mathematical image of a `PoolState`.
pub struct PoolView {
    pub sqrt_price_x64: int,
    pub current_tick: int,
    pub liquidity: int,
    pub tick_spacing: int,
    pub token0: Address,
    pub token1: Address,
}

impl View for PoolState {
    type V = PoolView;

    open spec fn view(&self) -> PoolView {
        PoolView {
            sqrt_price_x64: self.sqrt_price_x64 as int,
            current_tick: self.current_tick as int,
            liquidity: self.liquidity as int,
            tick_spacing: self.tick_spacing as int,
            token0: self.token0,
            token1: self.token1,
        }
    }
}

/// The static pool configuration fixed at creation.
#[derive(Clone, Copy, Debug, PartialEq, Eq, Structural)]
pub struct PoolConfig {
    /// The identity allowed to administer the pool.
    pub admin: Address,
    /// First asset of the pair.
    pub token_a: Address,
    /// Second asset of the pair.
    pub token_b: Address,
    /// Swap fee in basis points; positive.
    pub fee_bps: u32,
}

/// The mathematical image of a `PoolConfig`.
pub struct ConfigView {
    pub admin: Address,
    pub token_a: Address,
    pub token_b: Address,
    pub fee_bps: int,
}

impl View for PoolConfig {
    type V = ConfigView;

    open spec fn view(&self) -> ConfigView {
        ConfigView {
            admin: self.admin,
            token_a: self.token_a,
            token_b: self.token_b,
            fee_bps: self.fee_bps as int,
        }
    }
}

/// The state of a freshly created pool: the given price, tick and spacing,
/// zero aggregate liquidity.
pub open spec fn spec_init_pool(
    sqrt_price_x64: int,
    initial_tick: int,
    tick_spacing: int,
    token0: Address,
    token1: Address,
) -> PoolView {
    PoolView {
        sqrt_price_x64: sqrt_price_x64,
        current_tick: initial_tick,
        liquidity: 0,
        tick_spacing: tick_spacing,
        token0: token0,
        token1: token1,
    }
}

/// Build the initial pool state, refusing a non-positive tick spacing with
/// `InvalidConfig`.
pub fn init_pool(
    sqrt_price_x64: u128,
    initial_tick: i32,
    tick_spacing: i32,
    token0: Address,
    token1: Address,
) -> (r: Result<PoolState, Error>)
    ensures
        tick_spacing <= 0 ==> r == Err::<PoolState, Error>(Error::InvalidConfig),
        tick_spacing > 0 ==> (r matches Ok(p) && p@ == spec_init_pool(
            sqrt_price_x64 as int,
            initial_tick as int,
            tick_spacing as int,
            token0,
            token1,
        )),
{
    if tick_spacing <= 0 {
        return Err(Error::InvalidConfig);
    }
    Ok(
        PoolState {
            sqrt_price_x64,
            current_tick: initial_tick,
            liquidity: 0,
            tick_spacing,
            token0,
            token1,
        },
    )
}

} // verus!
