//! Backtesting of a three-candle pattern strategy over fixed-point candle data.
//!
//! Prices and money amounts are integers in units of `1 / SCALE`, fee rates are
//! integers in units of `1 / RATE_SCALE`, and RSI values run from `0` to
//! `RSI_SCALE`.
use vstd::prelude::*;

pub mod backtest;
pub mod decimal;
pub mod enums;
pub mod indicator;
pub mod keys;
pub mod kline;
pub mod ledger;
pub mod sign;
pub mod strategy;

verus! {

/// Fixed-point units per whole unit of price or money.
pub const SCALE: u64 = 100_000_000;

/// Fixed-point units of a fee rate that make up a rate of one (100%).
pub const RATE_SCALE: u64 = 100_000_000;

/// The RSI value that stands for 100.
pub const RSI_SCALE: u64 = 10_000;

/// The largest price, in fixed-point units, that a candle may carry.
pub const MAX_PRICE: u64 = 1_000_000_000_000_000;

} // verus!
