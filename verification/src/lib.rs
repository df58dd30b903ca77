//! A constant-product two-asset liquidity pool.
//!
//! The crate tracks two reserve balances and a liquidity-share supply and
//! computes, under the invariant `reserve_x * reserve_y = k`, the exact
//! amounts involved in adding liquidity, removing liquidity, and swapping
//! one asset for the other, subject to a proportional fee and
//! caller-specified slippage bounds. Rounding always favors the pool, and
//! every intermediate computation is checked against overflow and underflow.

pub mod curve;
pub mod error;
pub mod math;
pub mod pool;
