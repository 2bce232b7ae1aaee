//! A constant-product automated market maker pool for a two-token pair.
//!
//! The `Amm` ledger tracks per-account custody balances, pooled liquidity,
//! and proportional ownership shares, and prices every operation under the
//! product invariant `K`.  The hosting environment supplies the identity of
//! the current caller as a plain value.
#![allow(non_snake_case)]

pub mod account_map;
pub mod math;
pub mod pool;
pub mod types;

pub use account_map::BalanceMap;
pub use pool::Amm;
pub use pool::AmmError;
pub use types::AccountId;
pub use types::Balance;
pub use types::PRECISION;
