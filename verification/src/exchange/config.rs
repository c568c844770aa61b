//! Exchange constants.
use crate::decimal::{Dec, Decimal};
use vstd::prelude::*;

verus! {

/// Maximum acceptable slippage for limit orders (0.2%).
pub open spec fn max_slippage() -> Dec {
    Dec { m: 2, s: 3 }
}

/// Maximum acceptable slippage for limit orders (0.2%).
pub fn max_slippage_pct() -> (r: Decimal)
    ensures
        r@ == max_slippage(),
{
    Decimal::new(2, 3)
}

/// Maximum funding rate before skipping a trade (0.03%).
pub open spec fn funding_limit() -> Dec {
    Dec { m: 3, s: 4 }
}

/// Maximum funding rate before skipping a trade (0.03%).
pub fn funding_rate_limit() -> (r: Decimal)
    ensures
        r@ == funding_limit(),
{
    Decimal::new(3, 4)
}

/// R-multiple at which the stop moves to breakeven.
pub open spec fn first_tp_r() -> Dec {
    Dec { m: 15, s: 1 }
}

/// R-multiple at which the stop moves to breakeven.
pub fn first_tp_r_multiple() -> (r: Decimal)
    ensures
        r@ == first_tp_r(),
{
    Decimal::new(15, 1)
}

/// Share of the position to close at the first take profit.
pub open spec fn first_tp_share() -> Dec {
    Dec { m: 33, s: 2 }
}

/// Share of the position to close at the first take profit.
pub fn first_tp_close_pct() -> (r: Decimal)
    ensures
        r@ == first_tp_share(),
{
    Decimal::new(33, 2)
}

/// R-multiple at which to activate the trailing stop.
pub open spec fn trailing_r() -> Dec {
    Dec { m: 25, s: 1 }
}

/// R-multiple at which to activate the trailing stop.
pub fn trailing_activation_r() -> (r: Decimal)
    ensures
        r@ == trailing_r(),
{
    Decimal::new(25, 1)
}

/// ATR multiplier for the trailing stop offset.
pub open spec fn trailing_factor() -> Dec {
    Dec { m: 20, s: 1 }
}

/// ATR multiplier for the trailing stop offset.
pub fn trailing_atr_multiplier() -> (r: Decimal)
    ensures
        r@ == trailing_factor(),
{
    Decimal::new(20, 1)
}

/// Slippage that a simulated fill is charged (0.1%).
pub open spec fn mock_slippage() -> Dec {
    Dec { m: 1, s: 3 }
}

/// Slippage that a simulated fill is charged (0.1%).
pub fn mock_slippage_pct() -> (r: Decimal)
    ensures
        r@ == mock_slippage(),
{
    Decimal::new(1, 3)
}

/// Order retry attempts before giving up.
pub const ORDER_RETRY_ATTEMPTS: u32 = 3;

/// Delay between order retries in milliseconds.
pub const ORDER_RETRY_DELAY_MS: u64 = 500;

/// Maximum allowed simultaneous open trades per symbol.
pub const MAX_OPEN_POSITIONS: usize = 3;

/// Minimum minutes between new entries for the same symbol.
pub const TRADE_COOLDOWN_MINUTES: i64 = 15;

} // verus!
