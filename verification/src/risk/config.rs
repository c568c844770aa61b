//! Risk management constants.
use crate::decimal::{Dec, Decimal};
use vstd::prelude::*;

verus! {

/// Risk per trade as a fraction of equity (5%).
pub open spec fn risk_share() -> Dec {
    Dec { m: 50, s: 3 }
}

/// Risk per trade as a fraction of equity (5%).
pub fn risk_per_trade() -> (r: Decimal)
    ensures
        r@ == risk_share(),
{
    Decimal::new(50, 3)
}

/// Maximum position size as a fraction of equity (500%).
pub open spec fn max_position_share() -> Dec {
    Dec { m: 50, s: 1 }
}

/// Maximum position size as a fraction of equity (500%).
pub fn max_position_equity_pct() -> (r: Decimal)
    ensures
        r@ == max_position_share(),
{
    Decimal::new(50, 1)
}

/// ATR ratio above which the position is halved.
pub open spec fn reduce_ratio() -> Dec {
    Dec { m: 20, s: 1 }
}

/// ATR ratio above which the position is halved.
pub fn volatility_reduce_threshold() -> (r: Decimal)
    ensures
        r@ == reduce_ratio(),
{
    Decimal::new(20, 1)
}

/// ATR ratio above which the trade is skipped.
pub open spec fn skip_ratio() -> Dec {
    Dec { m: 30, s: 1 }
}

/// ATR ratio above which the trade is skipped.
pub fn volatility_skip_threshold() -> (r: Decimal)
    ensures
        r@ == skip_ratio(),
{
    Decimal::new(30, 1)
}

/// Daily loss limit as a fraction of equity (2.5%).
pub open spec fn loss_limit() -> Dec {
    Dec { m: 25, s: 3 }
}

/// Daily loss limit as a fraction of equity (2.5%).
pub fn daily_loss_limit() -> (r: Decimal)
    ensures
        r@ == loss_limit(),
{
    Decimal::new(25, 3)
}

/// Market capitalisation below which the position is reduced.
pub open spec fn small_cap() -> Dec {
    Dec { m: 1000000000, s: 0 }
}

/// Market capitalisation below which the position is reduced.
pub fn small_cap_threshold() -> (r: Decimal)
    ensures
        r@ == small_cap(),
{
    Decimal::new(1000000000, 0)
}

/// Reduction factor for high volatility.
pub open spec fn volatility_factor() -> Dec {
    Dec { m: 5, s: 1 }
}

/// Reduction factor for high volatility.
pub fn volatility_reduction_factor() -> (r: Decimal)
    ensures
        r@ == volatility_factor(),
{
    Decimal::new(5, 1)
}

/// Reduction factor for small caps.
pub open spec fn small_cap_factor() -> Dec {
    Dec { m: 5, s: 1 }
}

/// Reduction factor for small caps.
pub fn small_cap_reduction_factor() -> (r: Decimal)
    ensures
        r@ == small_cap_factor(),
{
    Decimal::new(5, 1)
}

/// Hours that trading stays halted after the daily loss limit was reached.
pub const HALT_HOURS: i64 = 24;

} // verus!
