//! The pool engine: one state object holding the pool singleton, its
//! configuration, the tick registry and the position ledger, with the four
//! entrypoints (initialize, swap, add liquidity, remove liquidity) and the
//! read-only views.
//!
//! Every operation either reaches its terminal state and reports `Ok`, or
//! fails atomically with the violated precondition and changes nothing.
//! Settlement (token transfers), caller authentication and persistence are
//! the embedding application's duty.

use vstd::prelude::*;
use crate::Address;
use crate::Error;
use crate::pool::{init_pool, ConfigView, PoolConfig, PoolState, PoolView};
use crate::position::{
    position_deposited, position_withdrawn, spec_withdraw_share, zero_position_view, Position,
    PositionLedger, PositionView,
};
use crate::swap::{apply_simple_price_move, spec_fee, spec_moved_price, swap_fee_amounts, SwapResult};
use crate::tick::{tick_updated, TickInfo, TickRegistry, TickView};
use crate::tick_math::ONE_X64;

verus! {

/// The mathematical image of a whole engine.
#[verifier::ext_equal]
pub struct EngineView {
    pub initialized: bool,
    pub pool: PoolView,
    pub config: ConfigView,
    pub ticks: Map<int, TickView>,
    pub positions: Map<(Address, i32, i32), PositionView>,
}

/// The pool view of an engine that was never initialized.
pub open spec fn empty_pool_view() -> PoolView {
    PoolView {
        sqrt_price_x64: 0,
        current_tick: 0,
        liquidity: 0,
        tick_spacing: 0,
        token0: Address(0),
        token1: Address(0),
    }
}

/// The config view of an engine that was never initialized.
pub open spec fn empty_config_view() -> ConfigView {
    ConfigView { admin: Address(0), token_a: Address(0), token_b: Address(0), fee_bps: 0 }
}

/// The price a pool starts at when the creator passes zero: parity.
pub open spec fn spec_default_price(sqrt_price_x64: int) -> int {
    if sqrt_price_x64 == 0 {
        ONE_X64 as int
    } else {
        sqrt_price_x64
    }
}

/// The engine after a successful initialization.
pub open spec fn initialize_applied(
    v: EngineView,
    admin: Address,
    token_a: Address,
    token_b: Address,
    fee_bps: int,
    sqrt_price_x64: int,
    current_tick: int,
    tick_spacing: int,
) -> EngineView {
    EngineView {
        initialized: true,
        pool: PoolView {
            sqrt_price_x64: spec_default_price(sqrt_price_x64),
            current_tick: current_tick,
            liquidity: 0,
            tick_spacing: tick_spacing,
            token0: token_a,
            token1: token_b,
        },
        config: ConfigView { admin, token_a, token_b, fee_bps },
        ..v
    }
}

/// The engine after a successful liquidity addition: the position, both tick
/// boundaries and the aggregate liquidity all grow together.
pub open spec fn add_applied(
    v: EngineView,
    owner: Address,
    lower: i32,
    upper: i32,
    liquidity: int,
    amt_a: int,
    amt_b: int,
) -> EngineView {
    let k = (owner, lower, upper);
    EngineView {
        pool: PoolView { liquidity: v.pool.liquidity + liquidity, ..v.pool },
        ticks: v.ticks.insert(
            lower as int,
            tick_updated(v.ticks[lower as int], liquidity, false),
        ).insert(upper as int, tick_updated(v.ticks[upper as int], liquidity, true)),
        positions: v.positions.insert(k, position_deposited(v.positions[k], liquidity, amt_a, amt_b)),
        ..v
    }
}

/// The engine after a successful liquidity removal: the exact inverse of an
/// addition on the ticks and the aggregate, with the position paid out
/// proportionally. The two boundary updates happen in sequence, so a
/// degenerate range whose boundaries coincide compounds them.
pub open spec fn remove_applied(
    v: EngineView,
    owner: Address,
    lower: i32,
    upper: i32,
    liquidity: int,
) -> EngineView {
    let k = (owner, lower, upper);
    let t1 = v.ticks.insert(lower as int, tick_updated(v.ticks[lower as int], -liquidity, false));
    EngineView {
        pool: PoolView { liquidity: v.pool.liquidity - liquidity, ..v.pool },
        ticks: t1.insert(upper as int, tick_updated(t1[upper as int], -liquidity, true)),
        positions: v.positions.insert(k, position_withdrawn(v.positions[k], liquidity)),
        ..v
    }
}

/// The engine after a successful simplified swap: only the sqrt price moves.
pub open spec fn swap_applied(v: EngineView, amount_in: int, zero_for_one: bool) -> EngineView {
    EngineView {
        pool: PoolView {
            sqrt_price_x64: spec_moved_price(v.pool, amount_in, zero_for_one),
            ..v.pool
        },
        ..v
    }
}

/// The machine-width bounds an addition needs when it is accepted.
pub open spec fn spec_add_fits(
    v: EngineView,
    owner: Address,
    lower: i32,
    upper: i32,
    liquidity: int,
    amt_a: int,
    amt_b: int,
) -> bool {
    (v.initialized && lower < upper && liquidity > 0) ==> {
        let k = (owner, lower, upper);
        &&& v.pool.liquidity + liquidity <= i128::MAX
        &&& v.ticks[lower as int].liquidity_gross + liquidity <= i128::MAX
        &&& v.ticks[lower as int].liquidity_net + liquidity <= i128::MAX
        &&& v.ticks[upper as int].liquidity_gross + liquidity <= i128::MAX
        &&& i128::MIN <= v.ticks[upper as int].liquidity_net - liquidity
        &&& v.positions[k].liquidity + liquidity <= i128::MAX
        &&& v.positions[k].token_a_amount + amt_a <= i128::MAX
        &&& v.positions[k].token_b_amount + amt_b <= i128::MAX
    }
}

/// The machine-width bounds a removal needs when it is accepted.
pub open spec fn spec_remove_fits(
    v: EngineView,
    owner: Address,
    lower: i32,
    upper: i32,
    liquidity: int,
) -> bool {
    (v.initialized && liquidity > 0 && v.positions[(owner, lower, upper)].liquidity >= liquidity)
        ==> {
        let k = (owner, lower, upper);
        let t1 = v.ticks.insert(
            lower as int,
            tick_updated(v.ticks[lower as int], -liquidity, false),
        );
        &&& v.positions[k].token_a_amount * liquidity <= i128::MAX
        &&& v.positions[k].token_b_amount * liquidity <= i128::MAX
        &&& i128::MIN <= v.ticks[lower as int].liquidity_gross - liquidity
        &&& i128::MIN <= v.ticks[lower as int].liquidity_net - liquidity
        &&& i128::MIN <= t1[upper as int].liquidity_gross - liquidity
        &&& t1[upper as int].liquidity_net + liquidity <= i128::MAX
    }
}

/// The machine-width bound a swap's fee computation needs when accepted.
pub open spec fn spec_swap_fits(v: EngineView, amount_specified: int) -> bool {
    (v.initialized && amount_specified > 0 && v.pool.liquidity > 0)
        ==> amount_specified * v.config.fee_bps <= i128::MAX
}

/// A pool engine: the global state, static configuration, per-tick
/// bookkeeping and per-position ledger of one pool.
pub struct ClmmPool {
    pool: Option<PoolState>,
    config: Option<PoolConfig>,
    ticks: TickRegistry,
    positions: PositionLedger,
}

impl View for ClmmPool {
    type V = EngineView;

    closed spec fn view(&self) -> EngineView {
        EngineView {
            initialized: self.pool is Some && self.config is Some,
            pool: match self.pool {
                Some(p) => p@,
                None => empty_pool_view(),
            },
            config: match self.config {
                Some(c) => c@,
                None => empty_config_view(),
            },
            ticks: self.ticks@,
            positions: self.positions@,
        }
    }
}

impl ClmmPool {
    /// Internal consistency: the stores are well-formed, pool and config
    /// exist together, the configuration is valid, and the aggregate
    /// liquidity equals the sum over all positions.
    pub closed spec fn wf(&self) -> bool {
        &&& self.ticks.wf()
        &&& self.positions.wf()
        &&& (self.pool is Some <==> self.config is Some)
        &&& match self.pool {
            Some(p) => p@.tick_spacing > 0 && p@.token0 != p@.token1 && p@.liquidity
                == self.positions.sum_liquidity(),
            None => self.positions.sum_liquidity() == 0,
        }
        &&& match self.config {
            Some(c) => c@.fee_bps > 0,
            None => true,
        }
    }

    /// A never-initialized engine: no pool, no config, all ticks and
    /// positions zero.
    pub fn new() -> (r: ClmmPool)
        ensures
            r.wf(),
            !r@.initialized,
            forall|t: int| #[trigger] r@.ticks[t] == crate::tick::zero_tick_view(),
            forall|k: (Address, i32, i32)| #[trigger] r@.positions[k] == zero_position_view(),
    {
        ClmmPool {
            pool: None,
            config: None,
            ticks: TickRegistry::new(),
            positions: PositionLedger::new(),
        }
    }

    /// Create the pool: refuses a second initialization with
    /// `AlreadyInitialized` and an invalid configuration (identical assets,
    /// non-positive tick spacing, or zero fee) with `InvalidConfig`, in that
    /// order, changing nothing on failure. On success the pool starts with
    /// zero liquidity at the given price, or at parity if the price is zero.
    pub fn initialize(
        &mut self,
        admin: Address,
        token_a: Address,
        token_b: Address,
        fee_bps: u32,
        sqrt_price_x64: u128,
        current_tick: i32,
        tick_spacing: i32,
    ) -> (r: Result<(), Error>)
        requires
            old(self).wf(),
        ensures
            final(self).wf(),
            old(self)@.initialized ==> r == Err::<(), Error>(Error::AlreadyInitialized) && final(self)@ == old(self)@,
            !old(self)@.initialized && (token_a == token_b || tick_spacing <= 0 || fee_bps == 0)
                ==> r == Err::<(), Error>(Error::InvalidConfig) && final(self)@ == old(self)@,
            !old(self)@.initialized && token_a != token_b && tick_spacing > 0 && fee_bps != 0
                ==> r == Ok::<(), Error>(()) && final(self)@ == initialize_applied(
                old(self)@,
                admin,
                token_a,
                token_b,
                fee_bps as int,
                sqrt_price_x64 as int,
                current_tick as int,
                tick_spacing as int,
            ),
    {
        if self.pool.is_some() || self.config.is_some() {
            return Err(Error::AlreadyInitialized);
        }
        if token_a == token_b {
            return Err(Error::InvalidConfig);
        }
        if tick_spacing <= 0 {
            return Err(Error::InvalidConfig);
        }
        if fee_bps == 0 {
            return Err(Error::InvalidConfig);
        }
        let initial_sqrt_price_x64: u128 = if sqrt_price_x64 == 0 {
            ONE_X64
        } else {
            sqrt_price_x64
        };
        match init_pool(initial_sqrt_price_x64, current_tick, tick_spacing, token_a, token_b) {
            Ok(p) => {
                self.pool = Some(p);
            },
            Err(e) => {
                return Err(e);
            },
        }
        self.config = Some(PoolConfig { admin, token_a, token_b, fee_bps });
        Ok(())
    }

    /// The current pool state, or `NotInitialized`.
    pub fn get_pool_state(&self) -> (r: Result<PoolState, Error>)
        requires
            self.wf(),
        ensures
            !self@.initialized ==> r == Err::<PoolState, Error>(Error::NotInitialized),
            self@.initialized ==> (r matches Ok(p) && p@ == self@.pool),
    {
        match &self.pool {
            Some(p) => Ok(*p),
            None => Err(Error::NotInitialized),
        }
    }

    /// The static configuration, or `NotInitialized`.
    pub fn get_pool_config(&self) -> (r: Result<PoolConfig, Error>)
        requires
            self.wf(),
        ensures
            !self@.initialized ==> r == Err::<PoolConfig, Error>(Error::NotInitialized),
            self@.initialized ==> (r matches Ok(c) && c@ == self@.config),
    {
        match &self.config {
            Some(c) => Ok(*c),
            None => Err(Error::NotInitialized),
        }
    }

    /// The bookkeeping at `tick`; all zeroes when uninitialized.
    pub fn get_tick_info(&self, tick: i32) -> (r: TickInfo)
        ensures
            r@ == self@.ticks[tick as int],
    {
        self.ticks.read_tick_info(tick)
    }

    /// The position of `owner` over `[lower, upper)`; all zeroes when absent.
    pub fn get_position(&self, owner: Address, lower: i32, upper: i32) -> (r: Position)
        ensures
            r@ == self@.positions[(owner, lower, upper)],
    {
        self.positions.read_position(owner, lower, upper)
    }

    /// The simplified swap: charges the basis-point fee, pays out one-for-one
    /// after the fee, and moves the sqrt price by the bounded heuristic
    /// without touching the current tick or the aggregate liquidity.
    /// Refuses, in order: a non-positive amount (`InvalidAmount`), a missing
    /// pool (`NotInitialized`), an empty pool (`NoLiquidity`), and a trade
    /// whose amount after the fee is not positive (`InvalidAmount`); each
    /// failure changes nothing.
    pub fn swap(
        &mut self,
        amount_specified: i128,
        zero_for_one: bool,
        sqrt_price_limit_x64: u128,
    ) -> (r: Result<SwapResult, Error>)
        requires
            old(self).wf(),
            spec_swap_fits(old(self)@, amount_specified as int),
        ensures
            final(self).wf(),
            amount_specified <= 0 ==> r == Err::<SwapResult, Error>(Error::InvalidAmount)
                && final(self)@ == old(self)@,
            amount_specified > 0 && !old(self)@.initialized ==> r == Err::<SwapResult, Error>(
                Error::NotInitialized,
            ) && final(self)@ == old(self)@,
            amount_specified > 0 && old(self)@.initialized && old(self)@.pool.liquidity <= 0
                ==> r == Err::<SwapResult, Error>(Error::NoLiquidity) && final(self)@ == old(self)@,
            amount_specified > 0 && old(self)@.initialized && old(self)@.pool.liquidity > 0
                ==> ({
                let fee = spec_fee(amount_specified as int, old(self)@.config.fee_bps);
                let out = amount_specified as int - fee;
                &&& out <= 0 ==> r == Err::<SwapResult, Error>(Error::InvalidAmount) && final(self)@ == old(self)@
                &&& out > 0 ==> (r matches Ok(res) && res.amount_in as int
                    == amount_specified as int && res.amount_out as int == out
                    && res.sqrt_price_x64 as int == spec_moved_price(
                    old(self)@.pool,
                    amount_specified as int,
                    zero_for_one,
                ) && res.current_tick as int == old(self)@.pool.current_tick && final(self)@
                    == swap_applied(old(self)@, amount_specified as int, zero_for_one))
            }),
    {
        let _ = sqrt_price_limit_x64;
        if amount_specified <= 0 {
            return Err(Error::InvalidAmount);
        }
        let cfg = match &self.config {
            Some(c) => *c,
            None => {
                return Err(Error::NotInitialized);
            },
        };
        let mut pool = match &self.pool {
            Some(p) => *p,
            None => {
                return Err(Error::NotInitialized);
            },
        };
        if pool.liquidity <= 0 {
            return Err(Error::NoLiquidity);
        }
        let amount_out: i128 = match swap_fee_amounts(amount_specified, cfg.fee_bps) {
            Ok((_, out)) => out,
            Err(e) => {
                return Err(e);
            },
        };
        apply_simple_price_move(&mut pool, amount_specified, zero_for_one);
        let result = SwapResult {
            amount_in: amount_specified,
            amount_out,
            sqrt_price_x64: pool.sqrt_price_x64,
            current_tick: pool.current_tick,
        };
        self.pool = Some(pool);
        Ok(result)
    }

    /// Add `liquidity` over `[lower, upper)` against deposited amounts
    /// `amt_a` and `amt_b`: the position, both tick boundaries and the
    /// aggregate liquidity are all updated together. Refuses, in order: an
    /// empty range (`InvalidRange`), a non-positive liquidity
    /// (`InvalidAmount`) and a missing pool (`NotInitialized`); each failure
    /// changes nothing.
    pub fn add_liquidity(
        &mut self,
        owner: Address,
        lower: i32,
        upper: i32,
        liquidity: i128,
        amt_a: i128,
        amt_b: i128,
    ) -> (r: Result<(), Error>)
        requires
            old(self).wf(),
            amt_a >= 0,
            amt_b >= 0,
            spec_add_fits(
                old(self)@,
                owner,
                lower,
                upper,
                liquidity as int,
                amt_a as int,
                amt_b as int,
            ),
        ensures
            final(self).wf(),
            lower >= upper ==> r == Err::<(), Error>(Error::InvalidRange) && final(self)@ == old(self)@,
            lower < upper && liquidity <= 0 ==> r == Err::<(), Error>(Error::InvalidAmount)
                && final(self)@ == old(self)@,
            lower < upper && liquidity > 0 && !old(self)@.initialized ==> r == Err::<(), Error>(
                Error::NotInitialized,
            ) && final(self)@ == old(self)@,
            lower < upper && liquidity > 0 && old(self)@.initialized ==> r == Ok::<(), Error>(())
                && final(self)@ == add_applied(
                old(self)@,
                owner,
                lower,
                upper,
                liquidity as int,
                amt_a as int,
                amt_b as int,
            ),
    {
        if lower >= upper {
            return Err(Error::InvalidRange);
        }
        if liquidity <= 0 {
            return Err(Error::InvalidAmount);
        }
        let mut ps = match &self.pool {
            Some(p) => *p,
            None => {
                return Err(Error::NotInitialized);
            },
        };
        ps.liquidity = ps.liquidity + liquidity;
        self.pool = Some(ps);
        proof {
            self.ticks.lemma_view_bounded(lower as int);
            self.ticks.lemma_view_bounded(upper as int);
        }
        self.ticks.update_tick(lower, liquidity, false);
        self.ticks.update_tick(upper, liquidity, true);
        let mut pos = self.positions.read_position(owner, lower, upper);
        proof {
            old(self).positions.lemma_read_nonneg(owner, lower, upper);
        }
        pos.deposit(liquidity, amt_a, amt_b);
        self.positions.write_position(owner, lower, upper, pos);
        Ok(())
    }

    /// Remove `liquidity` from the position over `[lower, upper)`, paying
    /// out the proportional share of both recorded amounts and updating the
    /// ticks and the aggregate as the exact inverse of an addition. Refuses,
    /// in order: a non-positive liquidity (`InvalidAmount`), a missing pool
    /// (`NotInitialized`) and a position holding less than requested
    /// (`InsufficientLiquidity`); each failure changes nothing.
    pub fn remove_liquidity(
        &mut self,
        owner: Address,
        lower: i32,
        upper: i32,
        liquidity: i128,
    ) -> (r: Result<(i128, i128), Error>)
        requires
            old(self).wf(),
            spec_remove_fits(old(self)@, owner, lower, upper, liquidity as int),
        ensures
            final(self).wf(),
            liquidity <= 0 ==> r == Err::<(i128, i128), Error>(Error::InvalidAmount) && final(self)@ == old(self)@,
            liquidity > 0 && !old(self)@.initialized ==> r == Err::<(i128, i128), Error>(
                Error::NotInitialized,
            ) && final(self)@ == old(self)@,
            liquidity > 0 && old(self)@.initialized && old(self)@.positions[
                (owner, lower, upper)
            ].liquidity < liquidity ==> r == Err::<(i128, i128), Error>(
                Error::InsufficientLiquidity,
            ) && final(self)@ == old(self)@,
            liquidity > 0 && old(self)@.initialized && old(self)@.positions[
                (owner, lower, upper)
            ].liquidity >= liquidity ==> ({
                let p0 = old(self)@.positions[(owner, lower, upper)];
                &&& r matches Ok(out) && out.0 as int == spec_withdraw_share(
                    p0.token_a_amount,
                    liquidity as int,
                    p0.liquidity,
                ) && out.1 as int == spec_withdraw_share(
                    p0.token_b_amount,
                    liquidity as int,
                    p0.liquidity,
                )
                &&& final(self)@ == remove_applied(old(self)@, owner, lower, upper, liquidity as int)
            }),
    {
        if liquidity <= 0 {
            return Err(Error::InvalidAmount);
        }
        let mut ps = match &self.pool {
            Some(p) => *p,
            None => {
                return Err(Error::NotInitialized);
            },
        };
        let mut pos = self.positions.read_position(owner, lower, upper);
        proof {
            old(self).positions.lemma_read_nonneg(owner, lower, upper);
        }
        let out = match pos.withdraw(liquidity) {
            Ok(o) => o,
            Err(e) => {
                return Err(e);
            },
        };
        proof {
            old(self).positions.lemma_sum_bounds(owner, lower, upper);
        }
        self.positions.write_position(owner, lower, upper, pos);
        ps.liquidity = ps.liquidity - liquidity;
        self.pool = Some(ps);
        proof {
            self.ticks.lemma_view_bounded(lower as int);
        }
        self.ticks.update_tick(lower, -liquidity, false);
        proof {
            self.ticks.lemma_view_bounded(upper as int);
        }
        self.ticks.update_tick(upper, -liquidity, true);
        Ok(out)
    }
}

/// Law: adding liquidity `L` to a fresh range and immediately removing `L`
/// refunds exactly the deposited amounts, returns the position to all
/// zeroes, and restores both tick boundaries and the pool's aggregate
/// liquidity to their prior values.
pub proof fn lemma_add_remove_restores(
    v: EngineView,
    owner: Address,
    lower: i32,
    upper: i32,
    liquidity: int,
    amt_a: int,
    amt_b: int,
)
    requires
        lower < upper,
        liquidity > 0,
        amt_a >= 0,
        amt_b >= 0,
        v.positions.dom().contains((owner, lower, upper)),
        v.ticks.dom().contains(lower as int),
        v.ticks.dom().contains(upper as int),
        v.positions[(owner, lower, upper)] == zero_position_view(),
    ensures
        ({
            let k = (owner, lower, upper);
            let added = add_applied(v, owner, lower, upper, liquidity, amt_a, amt_b);
            &&& added.positions[k].liquidity == liquidity
            &&& spec_withdraw_share(added.positions[k].token_a_amount, liquidity, added.positions[k].liquidity) == amt_a
            &&& spec_withdraw_share(added.positions[k].token_b_amount, liquidity, added.positions[k].liquidity) == amt_b
            &&& remove_applied(added, owner, lower, upper, liquidity) == v
        }),
{
    let k = (owner, lower, upper);
    let added = add_applied(v, owner, lower, upper, liquidity, amt_a, amt_b);
    let removed = remove_applied(added, owner, lower, upper, liquidity);
    assert(added.positions[k] == position_deposited(zero_position_view(), liquidity, amt_a, amt_b));
    assert(spec_withdraw_share(amt_a, liquidity, liquidity) == amt_a) by {
        vstd::arithmetic::div_mod::lemma_div_multiples_vanish(amt_a, liquidity);
        vstd::arithmetic::mul::lemma_mul_is_commutative(amt_a, liquidity);
    }
    assert(spec_withdraw_share(amt_b, liquidity, liquidity) == amt_b) by {
        vstd::arithmetic::div_mod::lemma_div_multiples_vanish(amt_b, liquidity);
        vstd::arithmetic::mul::lemma_mul_is_commutative(amt_b, liquidity);
    }
    assert(position_withdrawn(added.positions[k], liquidity) == zero_position_view());
    assert forall|u: (Address, i32, i32)| #[trigger] removed.positions[u] == v.positions[u] by {
        if u == k {
            assert(removed.positions[u] == zero_position_view());
        }
    }
    assert(removed.positions.dom() =~= v.positions.dom());
    assert(removed.positions =~= v.positions);
    assert(lower as int != upper as int);
    let a1 = tick_updated(v.ticks[lower as int], liquidity, false);
    let b1 = tick_updated(v.ticks[upper as int], liquidity, true);
    assert(added.ticks[lower as int] == a1);
    assert(added.ticks[upper as int] == b1);
    assert(tick_updated(a1, -liquidity, false) == v.ticks[lower as int]);
    assert(tick_updated(b1, -liquidity, true) == v.ticks[upper as int]);
    assert forall|t: int| #[trigger] removed.ticks[t] == v.ticks[t] by {}
    assert(removed.ticks.dom() =~= v.ticks.dom());
    assert(removed.ticks =~= v.ticks);
    assert(removed =~~= v);
}

/// One liquidity-changing request, as the engine's entrypoints receive it.
pub enum LiquidityOp {
    Add { owner: Address, lower: i32, upper: i32, liquidity: int, amt_a: int, amt_b: int },
    Remove { owner: Address, lower: i32, upper: i32, liquidity: int },
}

/// Whether the engine accepts the operation, mirroring the entrypoints'
/// success conditions.
pub open spec fn op_allowed(v: EngineView, op: LiquidityOp) -> bool {
    match op {
        LiquidityOp::Add { lower, upper, liquidity, .. } => v.initialized && lower < upper
            && liquidity > 0,
        LiquidityOp::Remove { owner, lower, upper, liquidity } => v.initialized && liquidity > 0
            && v.positions[(owner, lower, upper)].liquidity >= liquidity,
    }
}

/// The engine after one operation: the transition when accepted, unchanged
/// when refused.
pub open spec fn op_applied(v: EngineView, op: LiquidityOp) -> EngineView {
    if op_allowed(v, op) {
        match op {
            LiquidityOp::Add { owner, lower, upper, liquidity, amt_a, amt_b } => add_applied(
                v,
                owner,
                lower,
                upper,
                liquidity,
                amt_a,
                amt_b,
            ),
            LiquidityOp::Remove { owner, lower, upper, liquidity } => remove_applied(
                v,
                owner,
                lower,
                upper,
                liquidity,
            ),
        }
    } else {
        v
    }
}

/// What one operation contributes to the aggregate liquidity: the liquidity
/// added, minus the liquidity removed, zero when refused.
pub open spec fn op_delta(v: EngineView, op: LiquidityOp) -> int {
    if op_allowed(v, op) {
        match op {
            LiquidityOp::Add { liquidity, .. } => liquidity,
            LiquidityOp::Remove { liquidity, .. } => -liquidity,
        }
    } else {
        0
    }
}

/// The engine after a sequence of operations, applied left to right.
pub open spec fn ops_applied(v: EngineView, ops: Seq<LiquidityOp>) -> EngineView
    decreases ops.len(),
{
    if ops.len() == 0 {
        v
    } else {
        ops_applied(op_applied(v, ops[0]), ops.drop_first())
    }
}

/// The total liquidity contribution of a sequence of operations.
pub open spec fn ops_delta(v: EngineView, ops: Seq<LiquidityOp>) -> int
    decreases ops.len(),
{
    if ops.len() == 0 {
        0
    } else {
        op_delta(v, ops[0]) + ops_delta(op_applied(v, ops[0]), ops.drop_first())
    }
}

/// Law: after any sequence of add and remove operations the pool's aggregate
/// liquidity equals its starting value plus all liquidity added minus all
/// liquidity removed; refused operations contribute nothing.
pub proof fn lemma_liquidity_conservation(v: EngineView, ops: Seq<LiquidityOp>)
    ensures
        ops_applied(v, ops).pool.liquidity == v.pool.liquidity + ops_delta(v, ops),
    decreases ops.len(),
{
    if ops.len() > 0 {
        assert(op_applied(v, ops[0]).pool.liquidity == v.pool.liquidity + op_delta(v, ops[0]));
        lemma_liquidity_conservation(op_applied(v, ops[0]), ops.drop_first());
    }
}

} // verus!
