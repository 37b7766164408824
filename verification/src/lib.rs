//! A concentrated-liquidity automated market maker (CLMM) pool engine.
//!
//! The crate tracks a pool's current price, aggregate liquidity and per-range
//! liquidity positions, and executes swaps that move price along a liquidity
//! curve partitioned into discrete ticks. Persistence, authentication and
//! token settlement are left to the embedding application; the engine here is
//! pure state-to-state computation.

pub mod contract;
pub mod math;
pub mod pool;
pub mod position;
pub mod swap;
pub mod tick;
pub mod tick_math;

pub use contract::ClmmPool;
pub use pool::{PoolConfig, PoolState};
pub use position::Position;
pub use swap::SwapResult;
pub use tick::TickInfo;

use vstd::prelude::*;

verus! {

/// Everything that can go wrong in a pool operation.
#[derive(Clone, Copy, Debug, PartialEq, Eq, Structural)]
pub enum Error {
    /// The pool was already initialized and cannot be initialized again.
    AlreadyInitialized,
    /// The operation needs an initialized pool.
    NotInitialized,
    /// Identical assets, non-positive tick spacing, or zero fee at creation.
    InvalidConfig,
    /// A non-positive amount where a positive one is required.
    InvalidAmount,
    /// A swap was attempted against a pool with no active liquidity.
    NoLiquidity,
    /// A removal asked for more liquidity than the position holds.
    InsufficientLiquidity,
    /// A position range with `lower >= upper`.
    InvalidRange,
    /// Fixed-point division by zero.
    DivisionError,
    /// Asset settlement was rejected by the transfer collaborator.
    TransferFailed,
}

/// An opaque account or asset identifier.
///
/// The engine only ever compares identifiers for equality; the embedding
/// application maps them to real network addresses.
#[derive(Clone, Copy, Debug, PartialEq, Eq, Structural)]
pub struct Address(pub u64);

} // verus!
