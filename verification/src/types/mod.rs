//! Positions, candles and trades.
pub mod market;
pub mod position;
pub mod trade;
