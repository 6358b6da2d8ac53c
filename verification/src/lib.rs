//! Verified decision logic for simulating arbitrage between decentralised exchanges:
//! flashloan transactions, pool-pair and triangular-route selection, rankings and
//! searches over ordered keys, execution counters, multi-token pool index checks and
//! candle intervals.

pub mod arbitrage;
pub mod flashloan;
pub mod gas;
pub mod interval;
pub mod metrics;
pub mod ranking;
pub mod stableswap;
pub mod triangular;
