//! Position sizing with risk constraints.
use crate::decimal::{
    abs_int, abs_opt, aligned_sum, difference, law_difference_is_exact, law_product_is_exact,
    law_product_is_rounded, law_quotient_is_rounded, law_quotient_reaches,
    lemma_difference_valid, lemma_pow10_add, lemma_pow10_positive, lemma_units_sign, magnitude_of,
    opt_view, pow10, product, product_of, quotient, quotient_of, rounds_to, whole, zero, Balance, Dec,
    Decimal, Price, Volume,
};
use crate::risk::config;
use vstd::prelude::*;

verus! {

/// Errors that can occur during position sizing.
#[derive(Clone, Copy, Debug)]
pub enum RiskError {
    /// Volatility ratio exceeds skip threshold.
    VolatilityTooHigh { ratio: Decimal, threshold: Decimal },
    /// Circuit breaker triggered due to daily loss limit.
    CircuitBreakerTriggered { daily_loss_pct: Decimal, limit: Decimal },
    /// Insufficient equity for minimum position.
    InsufficientEquity { available: Balance, required: Balance },
    /// Invalid stop loss (same as entry).
    InvalidStopLoss { entry: Price, stop_loss: Price },
    /// Zero or negative equity.
    InvalidEquity { equity: Balance },
}

/// The model of a sizing error.
pub enum RiskFault {
    VolatilityTooHigh { ratio: Dec, threshold: Dec },
    CircuitBreakerTriggered { daily_loss_pct: Dec, limit: Dec },
    InsufficientEquity { available: Dec, required: Dec },
    InvalidStopLoss { entry: Dec, stop_loss: Dec },
    InvalidEquity { equity: Dec },
}

impl View for RiskError {
    type V = RiskFault;

    open spec fn view(&self) -> RiskFault {
        match *self {
            RiskError::VolatilityTooHigh { ratio, threshold } => RiskFault::VolatilityTooHigh {
                ratio: ratio@,
                threshold: threshold@,
            },
            RiskError::CircuitBreakerTriggered { daily_loss_pct, limit } =>
                RiskFault::CircuitBreakerTriggered {
                daily_loss_pct: daily_loss_pct@,
                limit: limit@,
            },
            RiskError::InsufficientEquity { available, required } =>
                RiskFault::InsufficientEquity { available: available@, required: required@ },
            RiskError::InvalidStopLoss { entry, stop_loss } => RiskFault::InvalidStopLoss {
                entry: entry@,
                stop_loss: stop_loss@,
            },
            RiskError::InvalidEquity { equity } => RiskFault::InvalidEquity { equity: equity@ },
        }
    }
}

impl RiskFault {
    /// The message of the error.
    pub open spec fn message(self) -> Seq<char> {
        match self {
            RiskFault::VolatilityTooHigh { ratio, threshold } =>
                "Volatility too high: ATR ratio "@ + ratio.text() + " exceeds threshold "@
                + threshold.text(),
            RiskFault::CircuitBreakerTriggered { daily_loss_pct, limit } =>
                "Circuit breaker triggered: daily loss "@ + daily_loss_pct.text()
                + "% exceeds limit "@ + limit.text() + "%"@,
            RiskFault::InsufficientEquity { available, required } => "Insufficient equity: "@
                + available.text() + " available, "@ + required.text() + " required"@,
            RiskFault::InvalidStopLoss { entry, stop_loss } => "Invalid stop loss: entry="@
                + entry.text() + ", stop_loss="@ + stop_loss.text(),
            RiskFault::InvalidEquity { equity } => "Invalid equity: "@ + equity.text(),
        }
    }
}

impl RiskError {
    /// The message of the error.
    pub fn to_string(&self) -> (r: String)
        ensures
            r@ == self@.message(),
    {
        match self {
            RiskError::VolatilityTooHigh { ratio, threshold } =>
                "Volatility too high: ATR ratio ".to_owned().concat(
                ratio.to_string().as_str(),
            ).concat(" exceeds threshold ").concat(threshold.to_string().as_str()),
            RiskError::CircuitBreakerTriggered { daily_loss_pct, limit } =>
                "Circuit breaker triggered: daily loss ".to_owned().concat(
                daily_loss_pct.to_string().as_str(),
            ).concat("% exceeds limit ").concat(limit.to_string().as_str()).concat("%"),
            RiskError::InsufficientEquity { available, required } =>
                "Insufficient equity: ".to_owned().concat(available.to_string().as_str()).concat(
                " available, ",
            ).concat(required.to_string().as_str()).concat(" required"),
            RiskError::InvalidStopLoss { entry, stop_loss } =>
                "Invalid stop loss: entry=".to_owned().concat(entry.to_string().as_str()).concat(
                ", stop_loss=",
            ).concat(stop_loss.to_string().as_str()),
            RiskError::InvalidEquity { equity } => "Invalid equity: ".to_owned().concat(
                equity.to_string().as_str(),
            ),
        }
    }
}

/// Input parameters for position sizing calculation.
#[derive(Clone, Copy, Debug)]
pub struct SizingInput {
    /// Current account equity.
    pub equity: Balance,
    /// Entry price for the trade.
    pub entry_price: Price,
    /// Stop loss price.
    pub stop_loss: Price,
    /// 15-minute ATR value.
    pub atr_15m: Decimal,
    /// 4-hour ATR value.
    pub atr_4h: Decimal,
    /// Coin market cap in USD (optional).
    pub market_cap: Option<Decimal>,
}

/// The model of a sizing request.
pub struct Sizing {
    pub equity: Dec,
    pub entry_price: Dec,
    pub stop_loss: Dec,
    pub atr_15m: Dec,
    pub atr_4h: Dec,
    pub market_cap: Option<Dec>,
}

impl View for SizingInput {
    type V = Sizing;

    open spec fn view(&self) -> Sizing {
        Sizing {
            equity: self.equity@,
            entry_price: self.entry_price@,
            stop_loss: self.stop_loss@,
            atr_15m: self.atr_15m@,
            atr_4h: self.atr_4h@,
            market_cap: opt_view(self.market_cap),
        }
    }
}

/// Result of position sizing calculation.
#[derive(Clone, Copy, Debug)]
pub struct SizingResult {
    /// Final position size in base currency.
    pub size: Volume,
    /// Base size before adjustments.
    pub base_size: Volume,
    /// Risk amount in quote currency.
    pub risk_amount: Balance,
    /// Whether volatility reduction was applied.
    pub volatility_reduced: bool,
    /// Whether market cap reduction was applied.
    pub market_cap_reduced: bool,
    /// Whether liquidity cap was applied.
    pub liquidity_capped: bool,
    /// ATR ratio (15M / 4H).
    pub atr_ratio: Decimal,
}

/// The model of a sizing result.
pub struct Sized {
    pub size: Dec,
    pub base_size: Dec,
    pub risk_amount: Dec,
    pub volatility_reduced: bool,
    pub market_cap_reduced: bool,
    pub liquidity_capped: bool,
    pub atr_ratio: Dec,
}

impl View for SizingResult {
    type V = Sized;

    open spec fn view(&self) -> Sized {
        Sized {
            size: self.size@,
            base_size: self.base_size@,
            risk_amount: self.risk_amount@,
            volatility_reduced: self.volatility_reduced,
            market_cap_reduced: self.market_cap_reduced,
            liquidity_capped: self.liquidity_capped,
            atr_ratio: self.atr_ratio@,
        }
    }
}

/// The figures that the limits on a position's size are applied to.
#[derive(Clone, Copy, Debug)]
pub struct SizeFigures {
    /// Risk amount in quote currency.
    pub risk_amount: Balance,
    /// Size at which the risk amount is lost at the stop.
    pub base_size: Volume,
    /// Largest size that the equity allows.
    pub max_size: Volume,
    /// ATR ratio (15M / 4H).
    pub atr_ratio: Decimal,
    /// Coin market cap in USD (optional).
    pub market_cap: Option<Decimal>,
}

impl SizeFigures {
    /// What the limits leave of the figures.
    pub open spec fn limited(self) -> Option<Sized> {
        limited(
            self.risk_amount@,
            self.base_size@,
            self.max_size@,
            self.atr_ratio@,
            opt_view(self.market_cap),
        )
    }
}

/// A ratio calls for a smaller position.
pub open spec fn volatile_at(ratio: Dec) -> bool {
    ratio.units() > config::reduce_ratio().units()
}

/// A market cap calls for a smaller position.
pub open spec fn small_at(market_cap: Option<Dec>) -> bool {
    market_cap is Some && market_cap->0.units() < config::small_cap().units()
}

/// A size after both reductions.
pub open spec fn reduced(base_size: Dec, ratio: Dec, market_cap: Option<Dec>) -> Option<Dec> {
    let s = if volatile_at(ratio) {
        product(base_size, config::volatility_factor())
    } else {
        Some(base_size)
    };
    if small_at(market_cap) {
        product_of(s, Some(config::small_cap_factor()))
    } else {
        s
    }
}

/// The size that is left of a base size after both reductions and the cap. Nothing where a figure
/// cannot be held.
pub open spec fn limited(
    risk_amount: Dec,
    base_size: Dec,
    max_size: Dec,
    ratio: Dec,
    market_cap: Option<Dec>,
) -> Option<Sized> {
    match reduced(base_size, ratio, market_cap) {
        Some(size) => {
            let capped = size.units() > max_size.units();
            Some(
                Sized {
                    size: if capped {
                        max_size
                    } else {
                        size
                    },
                    base_size,
                    risk_amount,
                    volatility_reduced: volatile_at(ratio),
                    market_cap_reduced: small_at(market_cap),
                    liquidity_capped: capped,
                    atr_ratio: ratio,
                },
            )
        },
        None => None,
    }
}

impl Sizing {
    /// The ratio of the two average true ranges; one where the longer one is not positive.
    pub open spec fn atr_ratio(self) -> Option<Dec> {
        if self.atr_4h.units() > zero().units() {
            quotient(self.atr_15m, self.atr_4h)
        } else {
            Some(whole(1))
        }
    }

    /// The amount at risk.
    pub open spec fn risk_amount(self) -> Option<Dec> {
        product(self.equity, config::risk_share())
    }

    /// The size at which the amount at risk is lost at the stop.
    pub open spec fn base_size(self) -> Option<Dec> {
        quotient_of(
            self.risk_amount(),
            magnitude_of(difference(self.entry_price, self.stop_loss)),
        )
    }

    /// The ratio calls for a smaller position.
    pub open spec fn volatile(self) -> bool {
        volatile_at(self.atr_ratio()->0)
    }

    /// The coin's market cap calls for a smaller position.
    pub open spec fn small(self) -> bool {
        small_at(self.market_cap)
    }

    /// The size after both reductions.
    pub open spec fn reduced_size(self) -> Option<Dec> {
        match self.base_size() {
            Some(base_size) => reduced(base_size, self.atr_ratio()->0, self.market_cap),
            None => None,
        }
    }

    /// The largest size that the equity allows.
    pub open spec fn max_size(self) -> Option<Dec> {
        quotient_of(product(self.equity, config::max_position_share()), Some(self.entry_price))
    }

    /// The position size, or why there is none. Nothing where a figure cannot be held.
    pub open spec fn outcome(self) -> Option<Result<Sized, RiskFault>> {
        if self.equity.units() <= zero().units() {
            Some(Err(RiskFault::InvalidEquity { equity: self.equity }))
        } else {
            match difference(self.entry_price, self.stop_loss) {
                None => None,
                Some(d) => if d.m == 0 {
                    Some(
                        Err(
                            RiskFault::InvalidStopLoss {
                                entry: self.entry_price,
                                stop_loss: self.stop_loss,
                            },
                        ),
                    )
                } else {
                    match self.atr_ratio() {
                        None => None,
                        Some(ratio) => if ratio.units() > config::skip_ratio().units() {
                            Some(
                                Err(
                                    RiskFault::VolatilityTooHigh {
                                        ratio,
                                        threshold: config::skip_ratio(),
                                    },
                                ),
                            )
                        } else {
                            self.sized(ratio)
                        },
                    }
                },
            }
        }
    }

    /// The position size where nothing speaks against the trade.
    pub open spec fn sized(self, ratio: Dec) -> Option<Result<Sized, RiskFault>> {
        match (self.risk_amount(), self.base_size(), self.max_size()) {
            (Some(risk_amount), Some(base_size), Some(max_size)) => match limited(
                risk_amount,
                base_size,
                max_size,
                ratio,
                self.market_cap,
            ) {
                Some(s) => Some(Ok(s)),
                None => None,
            },
            _ => None,
        }
    }
}

/// The model of a sizing answer.
pub open spec fn answer(r: Result<SizingResult, RiskError>) -> Result<Sized, RiskFault> {
    match r {
        Ok(s) => Ok(s@),
        Err(e) => Err(e@),
    }
}

/// The position never exceeds what the equity allows, and it is capped exactly when the reduced
/// size would.
pub proof fn law_size_is_capped(i: Sizing, s: Sized)
    requires
        i.outcome() == Some(Ok::<Sized, RiskFault>(s)),
    ensures
        i.max_size() is Some,
        s.size.units() <= i.max_size()->0.units(),
        s.liquidity_capped == (i.reduced_size()->0.units() > i.max_size()->0.units()),
        s.liquidity_capped ==> s.size == i.max_size()->0,
{
}

/// A size is given only for positive equity, a stop apart from the entry, and a ratio that is not
/// above the threshold.
pub proof fn law_sized_only_within_limits(i: Sizing, s: Sized)
    requires
        i.outcome() == Some(Ok::<Sized, RiskFault>(s)),
    ensures
        i.equity.units() > zero().units(),
        difference(i.entry_price, i.stop_loss)->0.m != 0,
        s.atr_ratio.units() <= config::skip_ratio().units(),
        Some(s.atr_ratio) == i.atr_ratio(),
{
}

proof fn lemma_half(d: Dec)
    requires
        d.valid(),
        d.units() >= 0,
        product(d, Dec { m: 5, s: 1 }) is Some,
    ensures
        product(d, Dec { m: 5, s: 1 })->0.valid(),
        0 <= product(d, Dec { m: 5, s: 1 })->0.units() <= d.units(),
        d.units() >= 3 ==> product(d, Dec { m: 5, s: 1 })->0.units() >= 1,
        d.units() >= 7 ==> product(d, Dec { m: 5, s: 1 })->0.units() >= 3,
{
    let h = Dec { m: 5, s: 1 };
    let p = product(d, h)->0;
    law_product_is_rounded(d, h);
    lemma_units_sign(d);
    lemma_units_sign(zero());
    let t = pow10(27);
    let u = d.units();
    let v = p.units();
    assert(t >= 1000) by {
        lemma_pow10_add(3, 24);
        lemma_pow10_positive(24);
        reveal_with_fuel(pow10, 4);
    }
    assert(pow10(28) == 10 * t);
    assert(h.units() == 5 * t);
    if u == 0 {
        assert(d.m == 0);
        assert(0 * h.m == 0);
        assert(v == 0);
    } else {
        assert(u * (5 * t) >= 0) by (nonlinear_arith)
            requires
                u >= 0,
                t >= 1,
        ;
        assert(v >= 0);
        let e = v * (10 * t) - u * (5 * t);
        assert(abs_int(e) * t <= (10 * t) * (t + v));
        assert(e * t <= (10 * t) * (t + v) && -e * t <= (10 * t) * (t + v)) by (nonlinear_arith)
            requires
                abs_int(e) * t <= (10 * t) * (t + v),
                t >= 1,
        ;
        assert(2 * v * t - u * t <= 2 * (t + v) && u * t - 2 * v * t <= 2 * (t + v))
            by (nonlinear_arith)
            requires
                e == v * (10 * t) - u * (5 * t),
                e * t <= (10 * t) * (t + v),
                -e * t <= (10 * t) * (t + v),
                t >= 1,
        ;
        assert(v <= u) by (nonlinear_arith)
            requires
                2 * v * t - u * t <= 2 * (t + v),
                u >= 1,
                v >= 0,
                t >= 1000,
        ;
        if u >= 3 && v < 1 {
            assert(false) by (nonlinear_arith)
                requires
                    u * t - 2 * v * t <= 2 * (t + v),
                    v == 0,
                    u >= 3,
                    t >= 1000,
            ;
        }
        if u >= 7 && v < 3 {
            assert(false) by (nonlinear_arith)
                requires
                    u * t - 2 * v * t <= 2 * (t + v),
                    0 <= v <= 2,
                    u >= 7,
                    t >= 1000,
            ;
        }
    }
}

/// The numbers of a request are within the limits of a decimal.
pub open spec fn held(i: Sizing) -> bool {
    i.equity.valid() && i.entry_price.valid() && i.stop_loss.valid()
}

/// The distance from the entry to the stop.
pub open spec fn stop_distance(i: Sizing) -> Dec {
    difference(i.entry_price, i.stop_loss)->0.magnitude()
}

/// What a rounded quotient says of the amount that was divided.
proof fn lemma_quotient_bounds(a: Dec, b: Dec)
    requires
        a.valid(),
        b.valid(),
        a.units() >= 0,
        b.units() > 0,
        quotient(a, b) is Some,
    ensures
        quotient(a, b)->0.valid(),
        quotient(a, b)->0.units() >= 0,
        (quotient(a, b)->0.units() * b.units() - a.units() * pow10(28)) * pow10(27) <= b.units() * (
        pow10(27) + quotient(a, b)->0.units()),
        a.units() * pow10(28) >= 2 * b.units() ==> quotient(a, b)->0.units() >= 1,
        a.units() * pow10(28) >= 8 * b.units() ==> quotient(a, b)->0.units() >= 7,
{
    law_quotient_is_rounded(a, b);
    let t = pow10(27);
    let q = quotient(a, b)->0.units();
    let n = a.units() * pow10(28);
    let d = b.units();
    assert(t >= 1000) by {
        lemma_pow10_add(3, 24);
        lemma_pow10_positive(24);
        reveal_with_fuel(pow10, 4);
    }
    lemma_pow10_positive(28);
    let u = a.units();
    let w = pow10(28);
    assert(n >= 0) by (nonlinear_arith)
        requires
            n == u * w,
            u >= 0,
            w >= 1,
    ;
    assert(q >= 0);
    let e = q * d - n;
    assert(e * t <= d * (t + q) && -e * t <= d * (t + q)) by (nonlinear_arith)
        requires
            abs_int(e) * t <= d * (t + q),
            t >= 1,
    ;
    if n >= 2 * d && q < 1 {
        assert(false) by (nonlinear_arith)
            requires
                -(q * d - n) * t <= d * (t + q),
                q == 0,
                n >= 2 * d,
                d > 0,
                t >= 1000,
        ;
    }
    if n >= 8 * d && q < 7 {
        assert((n - q * d) * t >= (2 * d) * t) by (nonlinear_arith)
            requires
                n >= 8 * d,
                0 <= q <= 6,
                d > 0,
                t >= 1000,
        ;
        assert((2 * d) * t > d * (t + q)) by (nonlinear_arith)
            requires
                0 <= q <= 6,
                d > 0,
                t >= 1000,
        ;
    }
}

/// The parts of a size are neither negative nor larger than the size at which the amount at risk is
/// lost.
proof fn lemma_parts(i: Sizing, s: Sized)
    requires
        i.outcome() == Some(Ok::<Sized, RiskFault>(s)),
        held(i),
    ensures
        s.risk_amount.valid(),
        s.risk_amount.units() >= 0,
        stop_distance(i).valid(),
        stop_distance(i).units() > 0,
        s.base_size.valid(),
        s.base_size.units() >= 0,
        Some(s.base_size) == quotient(s.risk_amount, stop_distance(i)),
        0 <= i.reduced_size()->0.units() <= s.base_size.units(),
        s.base_size.units() >= 7 ==> i.reduced_size()->0.units() >= 1,
{
    lemma_difference_valid(i.entry_price, i.stop_loss);
    law_product_is_rounded(i.equity, config::risk_share());
    lemma_units_sign(i.equity);
    lemma_units_sign(zero());
    lemma_units_sign(config::risk_share());
    lemma_units_sign(stop_distance(i));
    lemma_pow10_positive(28);
    let u = i.equity.units();
    let v = config::risk_share().units();
    assert(u * v > 0) by (nonlinear_arith)
        requires
            u > 0,
            v > 0,
    ;
    lemma_quotient_bounds(s.risk_amount, stop_distance(i));
    if i.volatile() {
        lemma_half(s.base_size);
        if i.small() {
            lemma_half(product(s.base_size, config::volatility_factor())->0);
        }
    } else if i.small() {
        lemma_half(s.base_size);
    }
}

/// The reductions and the cap only ever make a position smaller than the one whose loss at the stop
/// is the amount at risk.
pub proof fn law_size_is_at_most_base(i: Sizing, s: Sized)
    requires
        i.outcome() == Some(Ok::<Sized, RiskFault>(s)),
        held(i),
    ensures
        s.size.units() <= s.base_size.units(),
        Some(s.risk_amount) == product(i.equity, config::risk_share()),
{
    lemma_parts(i, s);
}

/// A trade risks no more than its share of the equity, up to the rounding of one division: the size
/// times the distance to the stop is at most the amount at risk, which is a twentieth of the equity.
pub proof fn law_risk_is_capped(i: Sizing, s: Sized)
    requires
        i.outcome() == Some(Ok::<Sized, RiskFault>(s)),
        held(i),
    ensures
        rounds_to(
            i.equity.units() * config::risk_share().units(),
            pow10(28),
            s.risk_amount.units(),
        ),
        20 * config::risk_share().units() == pow10(28),
        (s.size.units() * stop_distance(i).units() - s.risk_amount.units() * pow10(28)) * pow10(27)
            <= stop_distance(i).units() * (pow10(27) + s.base_size.units()),
        s.base_size.units() * stop_distance(i).units() == s.risk_amount.units() * pow10(28)
            ==> s.size.units() * stop_distance(i).units() <= s.risk_amount.units() * pow10(28),
{
    lemma_parts(i, s);
    law_product_is_rounded(i.equity, config::risk_share());
    lemma_quotient_bounds(s.risk_amount, stop_distance(i));
    lemma_share_of_one();
    lemma_pow10_positive(27);
    let x = s.size.units();
    let y = s.base_size.units();
    let d = stop_distance(i).units();
    let t = pow10(27);
    let n = s.risk_amount.units() * pow10(28);
    assert(x * d <= y * d) by (nonlinear_arith)
        requires
            x <= y,
            d > 0,
    ;
    assert((x * d - n) * t <= (y * d - n) * t) by (nonlinear_arith)
        requires
            x * d <= y * d,
            t >= 1,
    ;
}

proof fn lemma_share_of_one()
    ensures
        20 * config::risk_share().units() == pow10(28),
{
    lemma_pow10_add(3, 25);
    reveal_with_fuel(pow10, 4);
    assert(pow10(3) == 1000);
    assert(config::risk_share().units() == 50 * pow10(25));
}

/// The position is worth no more than five times the equity, up to the rounding of one division,
/// and it is not negative.
pub proof fn law_exposure_is_capped(i: Sizing, s: Sized)
    requires
        i.outcome() == Some(Ok::<Sized, RiskFault>(s)),
        held(i),
        i.entry_price.units() > 0,
    ensures
        0 <= s.size.units(),
        ({
            let worth = product(i.equity, config::max_position_share())->0.units();
            let entry = i.entry_price.units();
            &&& rounds_to(
                i.equity.units() * config::max_position_share().units(),
                pow10(28),
                worth,
            )
            &&& (s.size.units() * entry - worth * pow10(28)) * pow10(27) <= entry * (pow10(27)
                + i.max_size()->0.units())
        }),
        config::max_position_share().units() == 5 * pow10(28),
{
    lemma_parts(i, s);
    law_product_is_rounded(i.equity, config::max_position_share());
    lemma_units_sign(i.equity);
    lemma_units_sign(zero());
    lemma_units_sign(config::max_position_share());
    lemma_pow10_positive(28);
    lemma_pow10_positive(27);
    assert(pow10(28) == 10 * pow10(27));
    let u = i.equity.units();
    let v = config::max_position_share().units();
    assert(u * v > 0) by (nonlinear_arith)
        requires
            u > 0,
            v > 0,
    ;
    let m = product(i.equity, config::max_position_share())->0;
    lemma_quotient_bounds(m, i.entry_price);
    let x = s.size.units();
    let y = i.max_size()->0.units();
    let d = i.entry_price.units();
    let t = pow10(27);
    let n = m.units() * pow10(28);
    assert((x * d - n) * t <= (y * d - n) * t) by (nonlinear_arith)
        requires
            x <= y,
            d > 0,
            t >= 1,
    ;
}

/// A size is more than nothing, unless the amounts are so small that they are lost in rounding: the
/// amount at risk buys eight of the smallest units of the coin to its stop, and the largest worth
/// two.
pub proof fn law_size_is_positive(i: Sizing, s: Sized)
    requires
        i.outcome() == Some(Ok::<Sized, RiskFault>(s)),
        held(i),
        i.entry_price.units() > 0,
        s.risk_amount.units() * pow10(28) >= 8 * stop_distance(i).units(),
        product(i.equity, config::max_position_share())->0.units() * pow10(28) >= 2
            * i.entry_price.units(),
    ensures
        0 < s.size.units() <= s.base_size.units(),
{
    lemma_parts(i, s);
    lemma_quotient_bounds(s.risk_amount, stop_distance(i));
    law_product_is_rounded(i.equity, config::max_position_share());
    lemma_units_sign(i.equity);
    lemma_units_sign(zero());
    lemma_units_sign(config::max_position_share());
    lemma_pow10_positive(28);
    let u = i.equity.units();
    let v = config::max_position_share().units();
    assert(u * v > 0) by (nonlinear_arith)
        requires
            u > 0,
            v > 0,
    ;
    let m = product(i.equity, config::max_position_share())->0;
    lemma_quotient_bounds(m, i.entry_price);
}

fn size_of(input: &SizingInput) -> (r: Option<Result<SizingResult, RiskError>>)
    ensures
        match input@.outcome() {
            Some(a) => r is Some && answer(r->0) == a,
            None => r is None,
        },
        r matches Some(Ok(_)) ==> held(input@),
{
    if input.equity.le(&Decimal::zero()) {
        return Some(Err(RiskError::InvalidEquity { equity: input.equity }));
    }
    let risk_per_unit = abs_opt(input.entry_price.checked_sub(&input.stop_loss))?;
    if risk_per_unit.is_zero() {
        return Some(
            Err(
                RiskError::InvalidStopLoss {
                    entry: input.entry_price,
                    stop_loss: input.stop_loss,
                },
            ),
        );
    }
    let atr_ratio = if Decimal::zero().lt(&input.atr_4h) {
        input.atr_15m.checked_div(&input.atr_4h)?
    } else {
        Decimal::one()
    };
    if config::volatility_skip_threshold().lt(&atr_ratio) {
        return Some(
            Err(
                RiskError::VolatilityTooHigh {
                    ratio: atr_ratio,
                    threshold: config::volatility_skip_threshold(),
                },
            ),
        );
    }
    let risk_amount = input.equity.checked_mul(&config::risk_per_trade())?;
    let base_size = risk_amount.checked_div(&risk_per_unit)?;
    let max_value = input.equity.checked_mul(&config::max_position_equity_pct())?;
    let max_size = max_value.checked_div(&input.entry_price)?;
    let figures = SizeFigures {
        risk_amount,
        base_size,
        max_size,
        atr_ratio,
        market_cap: input.market_cap,
    };
    let sized = limit_size(&figures)?;
    Some(Ok(sized))
}

/// Applies the limits to a size: halved for an ATR ratio above 2, halved for a small market cap,
/// and capped by the equity. Nothing where a figure cannot be held.
pub fn limit_size(figures: &SizeFigures) -> (r: Option<SizingResult>)
    ensures
        match figures.limited() {
            Some(s) => r is Some && r->0@ == s,
            None => r is None,
        },
{
    let mut size = figures.base_size;
    let volatility_reduced = config::volatility_reduce_threshold().lt(&figures.atr_ratio);
    if volatility_reduced {
        size = size.checked_mul(&config::volatility_reduction_factor())?;
    }
    let market_cap_reduced = match figures.market_cap {
        Some(market_cap) => market_cap.lt(&config::small_cap_threshold()),
        None => false,
    };
    if market_cap_reduced {
        size = size.checked_mul(&config::small_cap_reduction_factor())?;
    }
    let liquidity_capped = figures.max_size.lt(&size);
    if liquidity_capped {
        size = figures.max_size;
    }
    Some(
        SizingResult {
            size,
            base_size: figures.base_size,
            risk_amount: figures.risk_amount,
            volatility_reduced,
            market_cap_reduced,
            liquidity_capped,
            atr_ratio: figures.atr_ratio,
        },
    )
}

/// Calculates position size with all risk constraints applied.
///
/// Base size is the risk amount (a fixed share of the equity) divided by the distance from entry
/// to stop. It is halved for an ATR ratio above 2, halved for a small market cap, and capped by
/// the equity.
///
/// # Errors
/// - `VolatilityTooHigh` if ATR ratio > 3.0
/// - `InvalidStopLoss` if entry equals stop loss
/// - `InvalidEquity` if equity is zero or negative
pub fn calculate_position_size(input: &SizingInput) -> (r: Result<SizingResult, RiskError>)
    requires
        input@.outcome() is Some,
    ensures
        Some(answer(r)) == input@.outcome(),
        r is Ok ==> held(input@),
{
    size_of(input).unwrap()
}

/// [`calculate_position_size`], or nothing where a figure cannot be held or the entry price is
/// zero.
pub fn checked_position_size(input: &SizingInput) -> (r: Option<Result<SizingResult, RiskError>>)
    ensures
        match input@.outcome() {
            Some(a) => r is Some && answer(r->0) == a,
            None => r is None,
        },
        r matches Some(Ok(_)) ==> held(input@),
{
    if size_of(input).is_some() {
        Some(calculate_position_size(input))
    } else {
        None
    }
}

/// Why a size is refused, by the figures themselves: equity that is not positive, a stop at the
/// entry, and a ratio of the two ranges above three, in this order.
pub proof fn law_refusals_have_their_reasons(i: Sizing)
    requires
        held(i),
        i.atr_15m.valid(),
        i.atr_4h.valid(),
        i.outcome() is Some,
        aligned_sum(i.entry_price, i.stop_loss.negated()).valid(),
    ensures
        i.outcome() == Some(
            Err::<Sized, RiskFault>(RiskFault::InvalidEquity { equity: i.equity }),
        ) <==> i.equity.units() <= 0,
        i.outcome() == Some(
            Err::<Sized, RiskFault>(
                RiskFault::InvalidStopLoss { entry: i.entry_price, stop_loss: i.stop_loss },
            ),
        ) <==> i.equity.units() > 0 && i.entry_price.units() == i.stop_loss.units(),
        i.outcome() matches Some(Err(RiskFault::VolatilityTooHigh { ratio, threshold })) ==> {
            &&& threshold.units() == 3 * pow10(28)
            &&& ratio.units() > 3 * pow10(28)
            &&& i.atr_4h.units() > 0
            &&& i.atr_15m.units() > 0
            &&& i.atr_15m.units() * pow10(28) >= i.atr_4h.units() * (3 * pow10(28) - 102)
        },
        i.outcome()->0 is Ok && i.atr_4h.units() > 0 ==> i.atr_15m.units() * pow10(28)
            < i.atr_4h.units() * (3 * pow10(28) + 103),
        i.equity.units() > 0 && i.entry_price.units() != i.stop_loss.units() && i.atr_4h.units() > 0
            && i.atr_15m.units() * pow10(28) >= i.atr_4h.units() * (3 * pow10(28) + 103)
            ==> i.outcome()->0 is Err && i.outcome()->0->Err_0 is VolatilityTooHigh,
{
    lemma_units_sign(zero());
    lemma_units_sign(i.equity);
    lemma_units_sign(i.atr_4h);
    law_difference_is_exact(i.entry_price, i.stop_loss);
    lemma_units_sign(difference(i.entry_price, i.stop_loss)->0);
    lemma_pow10_positive(28);
    lemma_pow10_positive(27);
    assert(pow10(28) == 10 * pow10(27));
    assert(pow10(29) == 10 * pow10(28));
    let t = pow10(28);
    assert(config::skip_ratio().units() == 30 * pow10(27));
    if i.atr_4h.units() > 0 && i.atr_ratio() is Some {
        law_quotient_reaches(i.atr_15m, i.atr_4h, 3 * t + 1);
        law_quotient_is_rounded(i.atr_15m, i.atr_4h);
        law_quotient_reaches(i.atr_15m, i.atr_4h, 3 * t);
        let u = i.atr_15m.units();
        let d = i.atr_4h.units();
        let q = quotient(i.atr_15m, i.atr_4h)->0.units();
        if q > 0 {
            assert(u > 0) by {
                lemma_units_sign(i.atr_15m);
                assert(rounds_to(u * t, d, q));
                if u <= 0 {
                    assert(u * t <= 0) by (nonlinear_arith)
                        requires
                            u <= 0,
                            t >= 1,
                    ;
                    if u == 0 {
                        assert(quotient(i.atr_15m, i.atr_4h) == Some(zero()));
                    } else {
                        assert(u * t < 0) by (nonlinear_arith)
                            requires
                                u < 0,
                                t >= 1,
                        ;
                    }
                }
            }
        }
    }
}

/// Half of a number is what rounding makes of it divided by two.
proof fn lemma_halves(d: Dec)
    requires
        d.valid(),
        product(d, Dec { m: 5, s: 1 }) is Some,
    ensures
        rounds_to(d.units(), 2, product(d, Dec { m: 5, s: 1 })->0.units()),
{
    let h = Dec { m: 5, s: 1 };
    law_product_is_rounded(d, h);
    let t = pow10(27);
    lemma_pow10_positive(27);
    assert(pow10(28) == 10 * t);
    assert(h.units() == 5 * t);
    let u = d.units();
    let v = product(d, h)->0.units();
    let e = v * (10 * t) - u * (5 * t);
    let f = v * 2 - u;
    let x = 5 * t;
    assert(e == f * x) by (nonlinear_arith)
        requires
            e == v * (10 * t) - u * (5 * t),
            f == v * 2 - u,
            x == 5 * t,
    ;
    assert(abs_int(e) == abs_int(f) * x) by (nonlinear_arith)
        requires
            e == f * x,
            x >= 1,
    ;
    let g = abs_int(v);
    let y = abs_int(f) * t;
    let z = 2 * (t + g);
    assert(y <= z) by (nonlinear_arith)
        requires
            abs_int(f) * x * t <= (2 * x) * (t + g),
            y == abs_int(f) * t,
            z == 2 * (t + g),
            x >= 1,
    ;
    assert((u * x < 0) == (u < 0)) by (nonlinear_arith)
        requires
            x >= 1,
    ;
}

/// What the limits do to a size, by the figures themselves: it is reduced for a ratio of the ranges
/// above two, and reduced for a market capitalisation below a thousand million; without a reduction
/// it is the base size, and each reduction halves it, up to a rounding; whatever exceeds the largest
/// size is cut to it.
pub proof fn law_limits_by_value(i: Sizing, s: Sized)
    requires
        i.outcome() == Some(Ok::<Sized, RiskFault>(s)),
        held(i),
    ensures
        s.volatility_reduced == (s.atr_ratio.units() > 2 * pow10(28)),
        s.market_cap_reduced == (i.market_cap matches Some(c) && c.units() < 1000000000 * pow10(28)),
        !(i.atr_4h.units() > 0) ==> s.atr_ratio.units() == pow10(28),
        i.atr_4h.units() > 0 && i.atr_4h.valid() && i.atr_15m.valid() ==> rounds_to(
            i.atr_15m.units() * pow10(28),
            i.atr_4h.units(),
            s.atr_ratio.units(),
        ),
        s.liquidity_capped == (s.size.units() < i.reduced_size()->0.units()),
        !s.volatility_reduced && !s.market_cap_reduced && !s.liquidity_capped ==> s.size
            == s.base_size,
        s.volatility_reduced != s.market_cap_reduced && !s.liquidity_capped ==> rounds_to(
            s.base_size.units(),
            2,
            s.size.units(),
        ),
        s.volatility_reduced && s.market_cap_reduced && !s.liquidity_capped ==> exists|half: int|
            rounds_to(s.base_size.units(), 2, half) && #[trigger] rounds_to(
                half,
                2,
                s.size.units(),
            ),
        s.liquidity_capped && i.entry_price.units() > 0 && (Dec {
            m: i.equity.m * 50,
            s: i.equity.s + 1,
        }).valid() && i.entry_price.valid() ==> rounds_to(
            5 * i.equity.units() * pow10(28),
            i.entry_price.units(),
            s.size.units(),
        ),
{
    lemma_parts(i, s);
    lemma_pow10_positive(27);
    let t = pow10(27);
    assert(pow10(28) == 10 * t);
    lemma_units_sign(zero());
    assert(config::reduce_ratio().units() == 20 * t);
    assert(config::small_cap().units() == 1000000000 * pow10(28));
    assert(whole(1).units() == pow10(28));
    if i.atr_4h.units() > 0 && i.atr_4h.valid() && i.atr_15m.valid() {
        law_quotient_is_rounded(i.atr_15m, i.atr_4h);
    }
    if i.volatile() {
        lemma_halves(s.base_size);
        if i.small() {
            lemma_half(s.base_size);
            let h = product(s.base_size, config::volatility_factor())->0;
            lemma_halves(h);
            if !s.liquidity_capped {
                assert(rounds_to(s.base_size.units(), 2, h.units()));
                assert(rounds_to(h.units(), 2, s.size.units()));
            }
        }
    } else if i.small() {
        lemma_halves(s.base_size);
    }
    if s.liquidity_capped && i.entry_price.units() > 0 && (Dec {
        m: i.equity.m * 50,
        s: i.equity.s + 1,
    }).valid() {
        let share = config::max_position_share();
        law_product_is_exact(i.equity, share);
        let w = product(i.equity, share)->0;
        law_product_is_rounded(i.equity, share);
        assert(share.units() == 5 * pow10(28)) by {
            assert(share.units() == 50 * t);
        }
        let p = pow10(28);
        let u = i.equity.units();
        assert(w.units() == 5 * u) by (nonlinear_arith)
            requires
                w.units() * p == u * (5 * p),
                p >= 1,
        ;
        law_quotient_is_rounded(w, i.entry_price);
    }
}

/// An answer is owed wherever the figures that it takes can be held.
pub proof fn law_sizing_is_owed(i: Sizing)
    requires
        held(i),
        aligned_sum(i.entry_price, i.stop_loss.negated()).valid(),
        i.atr_4h.units() > 0 ==> quotient(i.atr_15m, i.atr_4h) is Some,
        (Dec { m: i.equity.m * 50, s: i.equity.s + 3 }).valid(),
        (Dec { m: i.equity.m * 50, s: i.equity.s + 1 }).valid(),
        ({
            let risk = product(i.equity, Dec { m: 50, s: 3 })->0;
            let worth = product(i.equity, Dec { m: 50, s: 1 })->0;
            let half = Dec { m: 5, s: 1 };
            let base = quotient(risk, stop_distance(i));
            &&& stop_distance(i).m != 0 ==> {
                &&& base is Some
                &&& quotient(worth, i.entry_price) is Some
                &&& product(base->0, half) is Some
                &&& product(product(base->0, half)->0, half) is Some
            }
        }),
    ensures
        i.outcome() is Some,
{
    law_difference_is_exact(i.entry_price, i.stop_loss);
    law_product_is_exact(i.equity, config::risk_share());
    law_product_is_exact(i.equity, config::max_position_share());
    lemma_units_sign(zero());
}

} // verus!
