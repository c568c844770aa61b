//! The execution engine: which orders a position calls for, and how it changes when they are done.
use crate::decimal::{
    abs_int, aligned_sum, difference, difference_of, law_difference_is_exact, law_product_is_rounded,
    law_quotient_is_rounded, law_rounding_is_nearest, law_sum_is_exact, lemma_pow10_add,
    lemma_pow10_positive, mul_opt, opt_view, pow10, product, product_of, quotient, rounds_to,
    sub_opt, sum, sum_of, whole, zero, Dec, Decimal, Price, Volume,
};
use crate::exchange::config;
use crate::exchange::orders::{
    stop_limit, stop_limit_price, ExecutionError, ExecutionFault, OcoOrderResult, OrderSide,
};
use crate::exchange::replies::outcome;
use crate::exchange::trade_manager::{
    checked_evaluate_position, comparable, fresh_position, gain, law_unit_profit_by_value, Managed, ManagedPosition, Management,
    ManagementAction, TradeState,
};
use crate::symbol_map::SymbolMap;
use crate::text::same_text;
use crate::time::{Moment, Timestamp};
use crate::types::position::Position;
use vstd::prelude::*;

verus! {

/// Funding rate information for a symbol.
#[derive(Clone, Debug)]
pub struct FundingRate {
    /// Trading symbol.
    pub symbol: String,
    /// Current funding rate.
    pub rate: Decimal,
    /// Next funding time (timestamp).
    pub next_funding_time: i64,
}

/// Price ticker for a symbol.
#[derive(Clone, Debug)]
pub struct PriceTicker {
    /// Trading symbol.
    pub symbol: String,
    /// Current price.
    pub price: Price,
    /// Best bid price.
    pub bid: Price,
    /// Best ask price.
    pub ask: Price,
}

/// Trading rules of a symbol.
#[derive(Clone, Copy, Debug)]
pub struct SymbolFilters {
    /// Quantities are multiples of this.
    pub step_size: Decimal,
    /// Prices are multiples of this.
    pub tick_size: Decimal,
    /// Minimum order quantity.
    pub min_qty: Decimal,
}

/// Configuration for the engine.
#[derive(Clone, Debug)]
pub struct EngineConfig {
    /// API key for exchange.
    pub api_key: String,
    /// API secret for exchange.
    pub api_secret: String,
    /// Whether to use testnet.
    pub testnet: bool,
    /// Maximum slippage allowed.
    pub max_slippage: Decimal,
    /// Funding rate limit.
    pub funding_rate_limit: Decimal,
    /// Symbols to fetch exchange filters for on startup.
    pub symbols: Vec<String>,
}

impl Default for EngineConfig {
    fn default() -> (r: EngineConfig)
        ensures
            r.api_key@ == Seq::<char>::empty(),
            r.api_secret@ == Seq::<char>::empty(),
            r.testnet,
            r.max_slippage@ == config::max_slippage(),
            r.funding_rate_limit@ == config::funding_limit(),
            r.symbols@.len() == 0,
    {
        EngineConfig {
            api_key: String::new(),
            api_secret: String::new(),
            testnet: true,
            max_slippage: config::max_slippage_pct(),
            funding_rate_limit: config::funding_rate_limit(),
            symbols: Vec::new(),
        }
    }
}

/// A quantity rounded down to a multiple of the step.
pub open spec fn stepped(qty: Dec, step: Dec) -> Option<Dec> {
    match quotient(qty, step) {
        Some(q) => product(q.floored(), step),
        None => None,
    }
}

/// A price rounded to the nearest multiple of the tick.
pub open spec fn ticked(price: Dec, tick: Dec) -> Option<Dec> {
    match quotient(price, tick) {
        Some(q) => product(q.rounded(0), tick),
        None => None,
    }
}

/// [`stepped`] of a result.
pub open spec fn stepped_of(qty: Option<Dec>, step: Dec) -> Option<Dec> {
    match qty {
        Some(q) => stepped(q, step),
        None => None,
    }
}

/// [`ticked`] of a result.
pub open spec fn ticked_of(price: Option<Dec>, tick: Dec) -> Option<Dec> {
    match price {
        Some(p) => ticked(p, tick),
        None => None,
    }
}

/// [`round_qty_to_step`], or nothing where the step is zero or a figure cannot be held.
pub fn checked_round_qty(qty: Decimal, step_size: Decimal) -> (r: Option<Decimal>)
    ensures
        opt_view(r) == stepped(qty@, step_size@),
{
    let q = qty.checked_div(&step_size)?;
    if q.floor().checked_mul(&step_size).is_none() {
        return None;
    }
    Some(round_qty_to_step(qty, step_size))
}

/// Round quantity **down** to the nearest valid step.
///
/// `(qty / step_size).floor() * step_size`
pub fn round_qty_to_step(qty: Decimal, step_size: Decimal) -> (r: Decimal)
    requires
        stepped(qty@, step_size@) is Some,
    ensures
        Some(r@) == stepped(qty@, step_size@),
{
    qty.checked_div(&step_size).unwrap().floor().checked_mul(&step_size).unwrap()
}

/// Round price to the nearest valid tick.
///
/// `(price / tick_size).round() * tick_size`
pub fn round_price_to_tick(price: Decimal, tick_size: Decimal) -> (r: Decimal)
    requires
        ticked(price@, tick_size@) is Some,
    ensures
        Some(r@) == ticked(price@, tick_size@),
{
    price.checked_div(&tick_size).unwrap().round().checked_mul(&tick_size).unwrap()
}

/// [`round_price_to_tick`], or nothing where the tick is zero or a figure cannot be held.
pub fn checked_round_price(price: Decimal, tick_size: Decimal) -> (r: Option<Decimal>)
    ensures
        opt_view(r) == ticked(price@, tick_size@),
{
    let q = price.checked_div(&tick_size)?;
    if q.round().checked_mul(&tick_size).is_none() {
        return None;
    }
    Some(round_price_to_tick(price, tick_size))
}

/// Rounding a quantity to a step never exceeds it and leaves less than one step, wherever the
/// division by the step is exact and the result fits.
pub proof fn law_step_never_exceeds(qty: Dec, step: Dec)
    requires
        qty.valid(),
        step.valid(),
        step.m > 0,
        quotient(qty, step) is Some,
        quotient(qty, step)->0.s <= 28,
        quotient(qty, step)->0.units() * step.units() == qty.units() * pow10(28),
        (Dec {
            m: quotient(qty, step)->0.floored().m * step.m,
            s: step.s,
        }).valid(),
    ensures
        stepped(qty, step) is Some,
        stepped(qty, step)->0.units() <= qty.units() < stepped(qty, step)->0.units() + step.units(),
{
    let q = quotient(qty, step)->0;
    let f = q.floored().m;
    let b = pow10((28 - step.s) as nat);
    let t = pow10(28);
    let c = pow10((28 - q.s) as nat);
    let d = pow10(q.s);
    let m = q.m;
    let k = step.m;
    let u = step.units();
    let v = qty.units();
    lemma_pow10_positive((28 - step.s) as nat);
    lemma_pow10_positive((28 - q.s) as nat);
    lemma_pow10_positive(q.s);
    lemma_pow10_positive(28);
    lemma_pow10_add(q.s, (28 - q.s) as nat);
    assert(q.s + (28 - q.s) == 28);
    assert(stepped(qty, step)->0.units() == f * u) by {
        assert(f * k * b == f * (k * b)) by (nonlinear_arith);
        if f * k == 0 {
            assert(zero().units() == 0 * pow10(28));
            assert(f * (k * b) == 0) by (nonlinear_arith)
                requires
                    f * k == 0,
            ;
        }
    }
    assert(f * d <= m < (f + 1) * d) by (nonlinear_arith)
        requires
            f == m / d,
            d >= 1,
    ;
    assert(f * t <= m * c < (f + 1) * t) by (nonlinear_arith)
        requires
            f * d <= m < (f + 1) * d,
            c >= 1,
            t == d * c,
    ;
    assert(u > 0) by (nonlinear_arith)
        requires
            u == k * b,
            k > 0,
            b >= 1,
    ;
    let w = m * c;
    assert(f * u * t <= v * t < (f + 1) * u * t) by (nonlinear_arith)
        requires
            f * t <= w < (f + 1) * t,
            w * u == v * t,
            u > 0,
    ;
    assert(f * u <= v < (f + 1) * u) by (nonlinear_arith)
        requires
            f * u * t <= v * t < (f + 1) * u * t,
            t >= 1,
    ;
    assert((f + 1) * u == f * u + u) by (nonlinear_arith);
}

/// The side of an order that opens a position.
pub open spec fn opening_side(direction: Position) -> OrderSide {
    match direction {
        Position::Long => OrderSide::Buy,
        _ => OrderSide::Sell,
    }
}

/// Returns the order side needed to open a position.
pub fn entry_side(direction: Position) -> (r: OrderSide)
    ensures
        r == opening_side(direction),
{
    match direction {
        Position::Long => OrderSide::Buy,
        _ => OrderSide::Sell,
    }
}

/// Returns the order side needed to close a position: the opposite of the entry.
pub fn close_side(direction: Position) -> (r: OrderSide)
    ensures
        r == opening_side(direction).other(),
{
    match direction {
        Position::Long => OrderSide::Sell,
        _ => OrderSide::Buy,
    }
}

/// The ten coins that count as the largest.
pub open spec fn top_coins() -> Seq<Seq<char>> {
    seq![
        "BTCUSDT"@,
        "ETHUSDT"@,
        "BNBUSDT"@,
        "XRPUSDT"@,
        "ADAUSDT"@,
        "SOLUSDT"@,
        "DOGEUSDT"@,
        "DOTUSDT"@,
        "MATICUSDT"@,
        "LTCUSDT"@,
    ]
}

fn known_coin(symbol: &str) -> (r: bool)
    ensures
        r == top_coins().contains(symbol@),
{
    let r = same_text(symbol, "BTCUSDT") || same_text(symbol, "ETHUSDT") || same_text(
        symbol,
        "BNBUSDT",
    ) || same_text(symbol, "XRPUSDT") || same_text(symbol, "ADAUSDT") || same_text(
        symbol,
        "SOLUSDT",
    ) || same_text(symbol, "DOGEUSDT") || same_text(symbol, "DOTUSDT") || same_text(
        symbol,
        "MATICUSDT",
    ) || same_text(symbol, "LTCUSDT");
    proof {
        let t = top_coins();
        if r {
            assert(symbol@ == t[0] || symbol@ == t[1] || symbol@ == t[2] || symbol@ == t[3]
                || symbol@ == t[4] || symbol@ == t[5] || symbol@ == t[6] || symbol@ == t[7]
                || symbol@ == t[8] || symbol@ == t[9]);
        }
        if t.contains(symbol@) {
            let i = choose|i: int| 0 <= i < t.len() && t[i] == symbol@;
            assert(0 <= i < 10);
        }
    }
    r
}

/// An order that the exchange is asked for.
#[derive(Clone, Copy, Debug)]
pub enum EngineStep {
    /// Cancel all standard orders of the symbol.
    CancelOpenOrders,
    /// Cancel all conditional orders of the symbol.
    CancelAlgoOrders,
    /// Cancel one conditional order.
    CancelAlgoOrder { order_id: u64 },
    /// Buy or sell at the market.
    Market { side: OrderSide, quantity: Volume, reduce_only: bool },
    /// Place a stop loss and a take profit as one order list.
    Oco {
        side: OrderSide,
        quantity: Volume,
        take_profit: Price,
        stop_trigger: Price,
        stop_limit: Price,
    },
    /// Place a trailing stop; the callback rate is a percentage.
    TrailingStop { side: OrderSide, callback_rate: Decimal },
}

/// The model of a step.
pub enum Step {
    CancelOpenOrders,
    CancelAlgoOrders,
    CancelAlgoOrder { order_id: u64 },
    Market { side: OrderSide, quantity: Dec, reduce_only: bool },
    Oco { side: OrderSide, quantity: Dec, take_profit: Dec, stop_trigger: Dec, stop_limit: Dec },
    TrailingStop { side: OrderSide, callback_rate: Dec },
}

impl View for EngineStep {
    type V = Step;

    open spec fn view(&self) -> Step {
        match *self {
            EngineStep::CancelOpenOrders => Step::CancelOpenOrders,
            EngineStep::CancelAlgoOrders => Step::CancelAlgoOrders,
            EngineStep::CancelAlgoOrder { order_id } => Step::CancelAlgoOrder { order_id },
            EngineStep::Market { side, quantity, reduce_only } => Step::Market {
                side,
                quantity: quantity@,
                reduce_only,
            },
            EngineStep::Oco { side, quantity, take_profit, stop_trigger, stop_limit } => Step::Oco {
                side,
                quantity: quantity@,
                take_profit: take_profit@,
                stop_trigger: stop_trigger@,
                stop_limit: stop_limit@,
            },
            EngineStep::TrailingStop { side, callback_rate } => Step::TrailingStop {
                side,
                callback_rate: callback_rate@,
            },
        }
    }
}

impl EngineStep {
    /// Whether a failure of the step is passed over: what is to be canceled may be gone already.
    pub fn is_best_effort(&self) -> (r: bool)
        ensures
            r == (self@ is CancelOpenOrders || self@ is CancelAlgoOrders
                || self@ is CancelAlgoOrder),
    {
        matches!(
            self,
            EngineStep::CancelOpenOrders | EngineStep::CancelAlgoOrders
                | EngineStep::CancelAlgoOrder { .. }
        )
    }
}

/// The models of a list of steps.
pub open spec fn step_views(v: Seq<EngineStep>) -> Seq<Step> {
    v.map_values(|s: EngineStep| s@)
}

/// The cancellation of an order, if there is one.
pub open spec fn cancellation(id: Option<u64>) -> Seq<Step> {
    match id {
        Some(order_id) => seq![Step::CancelAlgoOrder { order_id }],
        None => Seq::empty(),
    }
}

/// The closing order list of a position: both legs with one quantity, prices at valid ticks, and
/// a limit behind the stop.
pub open spec fn oco_step(
    side: OrderSide,
    quantity: Option<Dec>,
    target: Dec,
    stop: Dec,
    slippage: Dec,
    f: SymbolFilters,
) -> Option<Step> {
    match (
        stepped_of(quantity, f.step_size@),
        ticked(target, f.tick_size@),
        ticked(stop, f.tick_size@),
        ticked_of(stop_limit(side, stop, slippage), f.tick_size@),
    ) {
        (Some(quantity), Some(take_profit), Some(stop_trigger), Some(limit)) => Some(
            Step::Oco { side, quantity, take_profit, stop_trigger, stop_limit: limit },
        ),
        _ => None,
    }
}

/// The closing order list of a position, if its figures can be held.
fn plan_oco(
    side: OrderSide,
    quantity: Option<Volume>,
    target: Price,
    stop: Price,
    slippage: Decimal,
    f: &SymbolFilters,
) -> (r: Option<EngineStep>)
    ensures
        match oco_step(side, opt_view(quantity), target@, stop@, slippage@, *f) {
            Some(s) => r is Some && r->0@ == s,
            None => r is None,
        },
{
    let quantity = quantity?;
    let quantity = checked_round_qty(quantity, f.step_size)?;
    let take_profit = checked_round_price(target, f.tick_size)?;
    let stop_trigger = checked_round_price(stop, f.tick_size)?;
    let limit = stop_limit_price(side, stop, slippage)?;
    let stop_limit = checked_round_price(limit, f.tick_size)?;
    Some(EngineStep::Oco { side, quantity, take_profit, stop_trigger, stop_limit })
}

/// Adds the cancellation of an order, if there is one.
fn push_cancellation(steps: &mut Vec<EngineStep>, id: Option<u64>)
    ensures
        step_views(final(steps)@) == step_views(old(steps)@) + cancellation(id),
{
    let ghost before = steps@;
    match id {
        Some(order_id) => {
            steps.push(EngineStep::CancelAlgoOrder { order_id });
        },
        None => {},
    }
    assert(step_views(steps@) =~= step_views(before) + cancellation(id));
}

fn push_step(steps: &mut Vec<EngineStep>, step: EngineStep)
    ensures
        step_views(final(steps)@) == step_views(old(steps)@).push(step@),
{
    let ghost before = steps@;
    steps.push(step);
    assert(step_views(steps@) =~= step_views(before).push(step@));
}

/// Entry, stop and target of a simulated fill: the entry is worse by the slippage, and the
/// distances to stop and target stay.
pub open spec fn mock_prices(direction: Position, entry: Dec, stop: Dec, target: Dec) -> Option<
    (Dec, Dec, Dec),
> {
    let slip = config::mock_slippage();
    let at = match direction {
        Position::Long => product_of(Some(entry), sum(whole(1), slip)),
        Position::Short => product_of(Some(entry), difference(whole(1), slip)),
        Position::Flat => Some(entry),
    };
    let to_stop = crate::decimal::magnitude_of(difference(entry, stop));
    let to_target = crate::decimal::magnitude_of(difference(target, entry));
    let new_stop = match direction {
        Position::Long => difference_of(at, to_stop),
        Position::Short => sum_of(at, to_stop),
        Position::Flat => Some(stop),
    };
    let new_target = match direction {
        Position::Long => sum_of(at, to_target),
        Position::Short => difference_of(at, to_target),
        Position::Flat => Some(target),
    };
    match (at, to_stop, to_target, new_stop, new_target) {
        (Some(e), Some(_), Some(_), Some(s), Some(t)) => Some((e, s, t)),
        _ => None,
    }
}

/// Entry, stop and target of a simulated fill, if they can be held.
fn simulate_fill(direction: Position, entry: Price, stop: Price, target: Price) -> (r: Option<
    (Price, Price, Price),
>)
    ensures
        match mock_prices(direction, entry@, stop@, target@) {
            Some(p) => r is Some && ((r->0).0@, (r->0).1@, (r->0).2@) == p,
            None => r is None,
        },
{
    let one = Decimal::one();
    let slip = config::mock_slippage_pct();
    let at = match direction {
        Position::Long => mul_opt(Some(entry), one.checked_add(&slip)),
        Position::Short => mul_opt(Some(entry), one.checked_sub(&slip)),
        Position::Flat => Some(entry),
    };
    let to_stop = crate::decimal::abs_opt(entry.checked_sub(&stop));
    let to_target = crate::decimal::abs_opt(target.checked_sub(&entry));
    let new_stop = match direction {
        Position::Long => sub_opt(at, to_stop),
        Position::Short => crate::decimal::add_opt(at, to_stop),
        Position::Flat => Some(stop),
    };
    let new_target = match direction {
        Position::Long => crate::decimal::add_opt(at, to_target),
        Position::Short => sub_opt(at, to_target),
        Position::Flat => Some(target),
    };
    match (at, to_stop, to_target, new_stop, new_target) {
        (Some(e), Some(_), Some(_), Some(s), Some(t)) => Some((e, s, t)),
        _ => None,
    }
}

/// A second position with the same content.
pub fn copy_position(p: &ManagedPosition) -> (r: ManagedPosition)
    ensures
        r@ == p@,
{
    ManagedPosition {
        symbol: p.symbol.clone(),
        direction: p.direction,
        entry_price: p.entry_price,
        original_stop_loss: p.original_stop_loss,
        current_stop_loss: p.current_stop_loss,
        take_profit: p.take_profit,
        original_quantity: p.original_quantity,
        current_quantity: p.current_quantity,
        risk_per_unit: p.risk_per_unit,
        atr_value: p.atr_value,
        state: p.state,
        oco_order_list_id: p.oco_order_list_id,
        stop_loss_order_id: p.stop_loss_order_id,
        take_profit_order_id: p.take_profit_order_id,
        trailing_stop_order_id: p.trailing_stop_order_id,
        opened_at: p.opened_at,
        closed_at: p.closed_at,
        realized_pnl: p.realized_pnl,
    }
}

/// The positions as a map of models.
pub open spec fn models(m: Map<Seq<char>, ManagedPosition>) -> Map<Seq<char>, Managed> {
    m.map_values(|p: ManagedPosition| p@)
}

proof fn lemma_models_insert(m: Map<Seq<char>, ManagedPosition>, k: Seq<char>, p: ManagedPosition)
    ensures
        models(m.insert(k, p)) == models(m).insert(k, p@),
{
    assert(models(m.insert(k, p)) =~= models(m).insert(k, p@));
}

/// The execution engine. Its positions are kept by symbol.
///
/// A position goes through these stages:
/// 1. opened with a market order, protected by a stop loss and a take profit in one order list;
/// 2. at the first take profit, partly closed and protected again at breakeven;
/// 3. at the trailing stage, protected by a trailing stop;
/// 4. closed.
pub struct ExecutionEngine {
    config: EngineConfig,
    positions: SymbolMap<ManagedPosition>,
    symbol_filters: SymbolMap<SymbolFilters>,
    mock_mode: bool,
}

/// What it takes to open a position: the position, and the steps that the exchange is asked for.
#[derive(Debug)]
pub struct OpenPlan {
    pub position: ManagedPosition,
    pub steps: Vec<EngineStep>,
}

/// The model of a plan to open a position.
pub struct Opening {
    pub position: Managed,
    pub steps: Seq<Step>,
}

impl View for OpenPlan {
    type V = Opening;

    open spec fn view(&self) -> Opening {
        Opening { position: self.position@, steps: step_views(self.steps@) }
    }
}

/// The model of an answer with a plan.
pub open spec fn plan_answer(r: Result<OpenPlan, ExecutionError>) -> Result<
    Opening,
    ExecutionFault,
> {
    match r {
        Ok(p) => Ok(p@),
        Err(e) => Err(e@),
    }
}

/// The model of an answer with steps.
pub open spec fn steps_answer(r: Result<Vec<EngineStep>, ExecutionError>) -> Result<
    Seq<Step>,
    ExecutionFault,
> {
    match r {
        Ok(v) => Ok(step_views(v@)),
        Err(e) => Err(e@),
    }
}

/// The steps that open a position on the exchange: old orders are canceled, the market order
/// enters, and the order list protects what was entered.
pub open spec fn opening_steps(
    direction: Position,
    quantity: Dec,
    stop: Dec,
    target: Dec,
    slippage: Dec,
    f: SymbolFilters,
) -> Option<Seq<Step>> {
    match (
        stepped(quantity, f.step_size@),
        oco_step(
            opening_side(direction).other(),
            Some(quantity),
            target,
            stop,
            slippage,
            f,
        ),
    ) {
        (Some(q), Some(oco)) => Some(
            seq![
                Step::CancelOpenOrders,
                Step::CancelAlgoOrders,
                Step::Market {
                    side: opening_side(direction),
                    quantity: q,
                    reduce_only: false,
                },
                oco,
            ],
        ),
        _ => None,
    }
}

impl ExecutionEngine {
    /// The positions.
    pub closed spec fn held(&self) -> Map<Seq<char>, ManagedPosition> {
        self.positions@
    }

    /// The positions as models.
    pub open spec fn book(&self) -> Map<Seq<char>, Managed> {
        models(self.held())
    }

    /// The trading rules by symbol.
    pub closed spec fn filters(&self) -> Map<Seq<char>, SymbolFilters> {
        self.symbol_filters@
    }

    /// Orders are simulated.
    pub closed spec fn mock(&self) -> bool {
        self.mock_mode
    }

    /// The configuration.
    pub closed spec fn settings(&self) -> EngineConfig {
        self.config
    }

    /// The slippage allowed.
    pub open spec fn slippage(&self) -> Dec {
        self.settings().max_slippage@
    }

    /// The funding rate limit.
    pub open spec fn rate_limit(&self) -> Dec {
        self.settings().funding_rate_limit@
    }

    /// Everything but the positions is as it was.
    pub open spec fn same_setup(&self, other: &ExecutionEngine) -> bool {
        self.filters() == other.filters() && self.mock() == other.mock() && self.settings()
            == other.settings()
    }

    /// Creates an engine for live trading with the given trading rules.
    pub fn new(config: EngineConfig, symbol_filters: SymbolMap<SymbolFilters>) -> (r:
        ExecutionEngine)
        ensures
            r.book() == Map::<Seq<char>, Managed>::empty(),
            r.filters() == symbol_filters@,
            !r.mock(),
            r.settings() == config,
    {
        let r = ExecutionEngine {
            config,
            positions: SymbolMap::new(),
            symbol_filters,
            mock_mode: false,
        };
        assert(r.book() =~= Map::<Seq<char>, Managed>::empty());
        r
    }

    /// Creates an engine that simulates its orders, with the default configuration.
    pub fn new_mock() -> (r: ExecutionEngine)
        ensures
            r.book() == Map::<Seq<char>, Managed>::empty(),
            r.filters() == Map::<Seq<char>, SymbolFilters>::empty(),
            r.mock(),
            r.slippage() == config::max_slippage(),
            r.rate_limit() == config::funding_limit(),
    {
        let r = ExecutionEngine {
            config: EngineConfig::default(),
            positions: SymbolMap::new(),
            symbol_filters: SymbolMap::new(),
            mock_mode: true,
        };
        assert(r.book() =~= Map::<Seq<char>, Managed>::empty());
        r
    }

    /// The configuration.
    pub fn config(&self) -> (r: &EngineConfig)
        ensures
            *r == self.settings(),
    {
        &self.config
    }

    /// Whether orders are simulated.
    pub fn is_mock(&self) -> (r: bool)
        ensures
            r == self.mock(),
    {
        self.mock_mode
    }

    /// Whether the trading rules of a symbol are known.
    pub fn has_filters(&self, symbol: &str) -> (r: bool)
        ensures
            r == self.filters().dom().contains(symbol@),
    {
        self.symbol_filters.contains_key(symbol)
    }

    /// Returns the trading rules of a symbol.
    pub fn filters_for(&self, symbol: &str) -> (r: &SymbolFilters)
        requires
            self.filters().dom().contains(symbol@),
        ensures
            *r == self.filters()[symbol@],
    {
        self.symbol_filters.get(symbol).unwrap()
    }

    /// The funding rate is above the limit, on either side.
    pub open spec fn refuses(&self, rate: Dec) -> bool {
        rate.magnitude().units() > self.rate_limit().units()
    }

    /// Rejects entry if the funding rate exceeds the configured limit.
    pub fn check_funding_rate(&self, funding: &FundingRate) -> (r: Result<(), ExecutionError>)
        ensures
            outcome(r) == if self.refuses(funding.rate@) {
                Err(
                    ExecutionFault::FundingRateTooHigh {
                        rate: funding.rate@,
                        limit: self.rate_limit(),
                    },
                )
            } else {
                Ok(())
            },
    {
        if self.config.funding_rate_limit.lt(&funding.rate.abs()) {
            return Err(
                ExecutionError::FundingRateTooHigh {
                    rate: funding.rate,
                    limit: self.config.funding_rate_limit,
                },
            );
        }
        Ok(())
    }

    /// The limit price for a ticker, with the slippage allowed.
    pub open spec fn limit_price(&self, ticker: PriceTicker, side: OrderSide) -> Option<Dec> {
        match side {
            OrderSide::Buy => product_of(Some(ticker.ask@), sum(whole(1), self.slippage())),
            OrderSide::Sell => product_of(
                Some(ticker.bid@),
                difference(whole(1), self.slippage()),
            ),
        }
    }

    fn limit_price_of(&self, ticker: &PriceTicker, side: OrderSide) -> (r: Option<Price>)
        ensures
            opt_view(r) == self.limit_price(*ticker, side),
    {
        let one = Decimal::one();
        match side {
            OrderSide::Buy => mul_opt(
                Some(ticker.ask),
                one.checked_add(&self.config.max_slippage),
            ),
            OrderSide::Sell => mul_opt(
                Some(ticker.bid),
                one.checked_sub(&self.config.max_slippage),
            ),
        }
    }

    /// Calculates a limit price with slippage applied.
    pub fn calculate_limit_price(&self, ticker: &PriceTicker, side: OrderSide) -> (r: Price)
        requires
            self.limit_price(*ticker, side) is Some,
        ensures
            Some(r@) == self.limit_price(*ticker, side),
    {
        self.limit_price_of(ticker, side).unwrap()
    }

    /// [`ExecutionEngine::calculate_limit_price`], or nothing where it cannot be held.
    pub fn checked_limit_price(&self, ticker: &PriceTicker, side: OrderSide) -> (r: Option<Price>)
        ensures
            opt_view(r) == self.limit_price(*ticker, side),
    {
        if self.limit_price_of(ticker, side).is_some() {
            Some(self.calculate_limit_price(ticker, side))
        } else {
            None
        }
    }

    /// Returns `true` if the symbol is one of the ten largest coins.
    pub fn is_top_coin(symbol: &str) -> (r: bool)
        ensures
            r == top_coins().contains(symbol@),
    {
        known_coin(symbol)
    }
}

/// The position with the identifiers of its closing order list.
pub open spec fn linked(p: Managed, list_id: u64, stop_id: u64, target_id: u64) -> Managed {
    Managed {
        oco_order_list_id: Some(list_id),
        stop_loss_order_id: Some(stop_id),
        take_profit_order_id: Some(target_id),
        ..p
    }
}

/// The position with the identifiers of the order list that was placed, if one was.
pub open spec fn linked_opt(p: Managed, placed: Option<&OcoOrderResult>) -> Managed {
    match placed {
        Some(o) => linked(p, o.order_list_id, o.stop_loss_order_id, o.take_profit_order_id),
        None => p,
    }
}

fn link(p: &mut ManagedPosition, placed: Option<&OcoOrderResult>)
    ensures
        final(p)@ == linked_opt(old(p)@, placed),
{
    match placed {
        Some(o) => {
            p.oco_order_list_id = Some(o.order_list_id);
            p.stop_loss_order_id = Some(o.stop_loss_order_id);
            p.take_profit_order_id = Some(o.take_profit_order_id);
        },
        None => {},
    }
}

impl ExecutionEngine {
    /// The plan to open a position at `now`, or why there is none: a funding rate above the limit
    /// comes first. Nothing where a figure cannot be held.
    pub open spec fn opening(
        &self,
        symbol: Seq<char>,
        direction: Position,
        entry: Dec,
        stop: Dec,
        target: Dec,
        quantity: Dec,
        atr: Dec,
        funding: Option<Dec>,
        now: Moment,
    ) -> Option<Result<Opening, ExecutionFault>> {
        if funding is Some && self.refuses(funding->0) {
            Some(
                Err(
                    ExecutionFault::FundingRateTooHigh {
                        rate: funding->0,
                        limit: self.rate_limit(),
                    },
                ),
            )
        } else if self.mock() {
            match mock_prices(direction, entry, stop, target) {
                Some(p) => match difference(p.0, p.1) {
                    Some(d) => Some(
                        Ok(
                            Opening {
                                position: fresh_position(
                                    symbol,
                                    direction,
                                    p.0,
                                    p.1,
                                    p.2,
                                    quantity,
                                    atr,
                                    d.magnitude(),
                                    now,
                                ),
                                steps: Seq::empty(),
                            },
                        ),
                    ),
                    None => None,
                },
                None => None,
            }
        } else {
            match (
                difference(entry, stop),
                opening_steps(
                    direction,
                    quantity,
                    stop,
                    target,
                    self.slippage(),
                    self.filters()[symbol],
                ),
            ) {
                (Some(d), Some(steps)) => Some(
                    Ok(
                        Opening {
                            position: fresh_position(
                                symbol,
                                direction,
                                entry,
                                stop,
                                target,
                                quantity,
                                atr,
                                d.magnitude(),
                                now,
                            ),
                            steps,
                        },
                    ),
                ),
                _ => None,
            }
        }
    }

    /// Plans to open a position at `now`.
    #[verifier::spinoff_prover]
    #[verifier::rlimit(60)]
    pub fn plan_open(
        &self,
        symbol: &str,
        direction: Position,
        entry_price: Price,
        stop_loss: Price,
        take_profit: Price,
        quantity: Volume,
        atr_value: Decimal,
        funding_rate: Option<&FundingRate>,
        now: Timestamp,
    ) -> (r: Option<Result<OpenPlan, ExecutionError>>)
        requires
            self.mock() || self.filters().dom().contains(symbol@) || (funding_rate is Some
                && self.refuses(funding_rate->0.rate@)),
        ensures
            match self.opening(
                symbol@,
                direction,
                entry_price@,
                stop_loss@,
                take_profit@,
                quantity@,
                atr_value@,
                match funding_rate {
                    Some(f) => Some(f.rate@),
                    None => None,
                },
                now@,
            ) {
                Some(a) => r is Some && plan_answer(r->0) == a,
                None => r is None,
            },
    {
        match funding_rate {
            Some(funding) => {
                match self.check_funding_rate(funding) {
                    Ok(()) => {},
                    Err(e) => {
                        return Some(Err(e));
                    },
                }
            },
            None => {},
        }
        let mut steps: Vec<EngineStep> = Vec::new();
        assert(step_views(steps@) =~= Seq::<Step>::empty());
        if self.mock_mode {
            let p = simulate_fill(direction, entry_price, stop_loss, take_profit)?;
            let position = ManagedPosition::new_at(
                symbol,
                direction,
                p.0,
                p.1,
                p.2,
                quantity,
                atr_value,
                now,
            )?;
            return Some(Ok(OpenPlan { position, steps }));
        }
        let position = ManagedPosition::new_at(
            symbol,
            direction,
            entry_price,
            stop_loss,
            take_profit,
            quantity,
            atr_value,
            now,
        )?;
        let f = self.filters_for(symbol);
        let q = checked_round_qty(quantity, f.step_size)?;
        let oco = plan_oco(
            close_side(direction),
            Some(quantity),
            take_profit,
            stop_loss,
            self.config.max_slippage,
            f,
        )?;
        steps.push(EngineStep::CancelOpenOrders);
        steps.push(EngineStep::CancelAlgoOrders);
        steps.push(
            EngineStep::Market { side: entry_side(direction), quantity: q, reduce_only: false },
        );
        steps.push(oco);
        assert(step_views(steps@) =~= opening_steps(
            direction,
            quantity@,
            stop_loss@,
            take_profit@,
            self.slippage(),
            *f,
        )->0);
        Some(Ok(OpenPlan { position, steps }))
    }

    /// Keeps a position whose steps were done, with the order list that was placed for it. It
    /// takes the place of any other position of the symbol.
    pub fn record_open(&mut self, plan: OpenPlan, placed: Option<&OcoOrderResult>) -> (r:
        ManagedPosition)
        ensures
            r@ == linked_opt(plan@.position, placed),
            final(self).book() == old(self).book().insert(plan@.position.symbol, r@),
            final(self).same_setup(old(self)),
    {
        let mut position = plan.position;
        link(&mut position, placed);
        let kept = copy_position(&position);
        proof {
            lemma_models_insert(self.held(), position@.symbol, kept);
        }
        self.positions.insert(position.symbol.as_str(), kept);
        position
    }

    /// Opens a simulated position at `now`.
    pub fn open_position(
        &mut self,
        symbol: &str,
        direction: Position,
        entry_price: Price,
        stop_loss: Price,
        take_profit: Price,
        quantity: Volume,
        atr_value: Decimal,
        funding_rate: Option<&FundingRate>,
        now: Timestamp,
    ) -> (r: Option<Result<ManagedPosition, ExecutionError>>)
        requires
            old(self).mock(),
        ensures
            final(self).same_setup(old(self)),
            match old(self).opening(
                symbol@,
                direction,
                entry_price@,
                stop_loss@,
                take_profit@,
                quantity@,
                atr_value@,
                match funding_rate {
                    Some(f) => Some(f.rate@),
                    None => None,
                },
                now@,
            ) {
                Some(Ok(plan)) => r is Some && r->0 is Ok && (r->0->Ok_0)@ == plan.position
                    && final(self).book() == old(self).book().insert(symbol@, plan.position),
                Some(Err(e)) => r is Some && r->0 is Err && (r->0->Err_0)@ == e && final(self).book()
                    == old(self).book(),
                None => r is None && final(self).book() == old(self).book(),
            },
    {
        match self.plan_open(
            symbol,
            direction,
            entry_price,
            stop_loss,
            take_profit,
            quantity,
            atr_value,
            funding_rate,
            now,
        )? {
            Ok(plan) => Some(Ok(self.record_open(plan, None))),
            Err(e) => Some(Err(e)),
        }
    }
}

impl Managed {
    /// Profit of the part that is closed at the first take profit: its distance to the new stop,
    /// weighted with the multiple at which it is closed.
    pub open spec fn first_tp_pnl(self, quantity: Dec, new_stop: Dec) -> Option<Dec> {
        product_of(
            product_of(self.pnl_per_unit(new_stop), Some(quantity)),
            Some(config::first_tp_r()),
        )
    }

    /// The steps of the first take profit: the protecting orders are canceled, a part is closed at
    /// the market, and what remains is protected again.
    pub open spec fn first_tp_steps(
        self,
        quantity: Dec,
        new_stop: Dec,
        slippage: Dec,
        f: SymbolFilters,
    ) -> Option<Seq<Step>> {
        let side = opening_side(self.direction).other();
        match (
            stepped(quantity, f.step_size@),
            oco_step(
                side,
                difference(self.current_quantity, quantity),
                self.take_profit,
                new_stop,
                slippage,
                f,
            ),
        ) {
            (Some(q), Some(oco)) => Some(
                (cancellation(self.stop_loss_order_id) + cancellation(
                    self.take_profit_order_id,
                )).push(Step::Market { side, quantity: q, reduce_only: true }).push(oco),
            ),
            _ => None,
        }
    }

    /// The callback rate of the trailing stop: the offset as a percentage of the entry price,
    /// between 0.1 and 5.
    pub open spec fn callback_rate(self, offset: Dec) -> Option<Dec> {
        match product_of(quotient(offset, self.entry_price), Some(whole(100))) {
            Some(rate) => Some(clamped_callback(rate)),
            None => None,
        }
    }

    /// The steps that replace the protecting orders by a trailing stop.
    pub open spec fn trailing_steps(self, offset: Dec) -> Option<Seq<Step>> {
        match self.callback_rate(offset) {
            Some(callback_rate) => Some(
                (cancellation(self.stop_loss_order_id) + cancellation(
                    self.take_profit_order_id,
                )).push(
                    Step::TrailingStop {
                        side: opening_side(self.direction).other(),
                        callback_rate,
                    },
                ),
            ),
            None => None,
        }
    }

    /// The steps that close what is left of the position.
    pub open spec fn closing_steps(self, f: SymbolFilters) -> Option<Seq<Step>> {
        match stepped(self.current_quantity, f.step_size@) {
            Some(quantity) => Some(
                (cancellation(self.stop_loss_order_id) + cancellation(self.take_profit_order_id)
                    + cancellation(self.trailing_stop_order_id)).push(
                    Step::Market {
                        side: opening_side(self.direction).other(),
                        quantity,
                        reduce_only: true,
                    },
                ),
            ),
            None => None,
        }
    }
}

/// The lowest callback rate that the exchange takes.
pub open spec fn lowest_callback() -> Dec {
    Dec { m: 1, s: 1 }
}

/// The highest callback rate that the exchange takes.
pub open spec fn highest_callback() -> Dec {
    Dec { m: 50, s: 1 }
}

/// A callback rate brought between the lowest and the highest that the exchange takes.
pub open spec fn clamped_callback(rate: Dec) -> Dec {
    if rate.units() < lowest_callback().units() {
        lowest_callback()
    } else if rate.units() > highest_callback().units() {
        highest_callback()
    } else {
        rate
    }
}

/// Brings a callback rate, in percent, between 0.1 and 5.
pub fn clamp_callback_rate(rate: Decimal) -> (r: Decimal)
    ensures
        r@ == clamped_callback(rate@),
{
    let low = Decimal::new(1, 1);
    let high = Decimal::new(50, 1);
    if rate.lt(&low) {
        low
    } else if high.lt(&rate) {
        high
    } else {
        rate
    }
}

fn first_tp_steps_of(
    p: &ManagedPosition,
    quantity: Volume,
    new_stop: Price,
    slippage: Decimal,
    f: &SymbolFilters,
) -> (r: Option<Vec<EngineStep>>)
    ensures
        match p@.first_tp_steps(quantity@, new_stop@, slippage@, *f) {
            Some(s) => r is Some && step_views(r->0@) == s,
            None => r is None,
        },
{
    let side = close_side(p.direction);
    let q = checked_round_qty(quantity, f.step_size)?;
    let oco = plan_oco(
        side,
        p.current_quantity.checked_sub(&quantity),
        p.take_profit,
        new_stop,
        slippage,
        f,
    )?;
    let mut steps: Vec<EngineStep> = Vec::new();
    push_cancellation(&mut steps, p.stop_loss_order_id);
    assert(step_views(steps@) =~= cancellation(p.stop_loss_order_id));
    push_cancellation(&mut steps, p.take_profit_order_id);
    push_step(&mut steps, EngineStep::Market { side, quantity: q, reduce_only: true });
    push_step(&mut steps, oco);
    Some(steps)
}

fn callback_rate_of(p: &ManagedPosition, offset: Decimal) -> (r: Option<Decimal>)
    ensures
        opt_view(r) == p@.callback_rate(offset@),
{
    let rate = mul_opt(offset.checked_div(&p.entry_price), Some(Decimal::from_u32(100)))?;
    Some(clamp_callback_rate(rate))
}

fn trailing_steps_of(p: &ManagedPosition, offset: Decimal) -> (r: Option<Vec<EngineStep>>)
    ensures
        match p@.trailing_steps(offset@) {
            Some(s) => r is Some && step_views(r->0@) == s,
            None => r is None,
        },
{
    let callback_rate = callback_rate_of(p, offset)?;
    let mut steps: Vec<EngineStep> = Vec::new();
    push_cancellation(&mut steps, p.stop_loss_order_id);
    assert(step_views(steps@) =~= cancellation(p.stop_loss_order_id));
    push_cancellation(&mut steps, p.take_profit_order_id);
    push_step(
        &mut steps,
        EngineStep::TrailingStop { side: close_side(p.direction), callback_rate },
    );
    Some(steps)
}

fn closing_steps_of(p: &ManagedPosition, f: &SymbolFilters) -> (r: Option<Vec<EngineStep>>)
    ensures
        match p@.closing_steps(*f) {
            Some(s) => r is Some && step_views(r->0@) == s,
            None => r is None,
        },
{
    let quantity = checked_round_qty(p.current_quantity, f.step_size)?;
    let mut steps: Vec<EngineStep> = Vec::new();
    push_cancellation(&mut steps, p.stop_loss_order_id);
    assert(step_views(steps@) =~= cancellation(p.stop_loss_order_id));
    push_cancellation(&mut steps, p.take_profit_order_id);
    push_cancellation(&mut steps, p.trailing_stop_order_id);
    push_step(
        &mut steps,
        EngineStep::Market { side: close_side(p.direction), quantity, reduce_only: true },
    );
    Some(steps)
}

/// The callback rate is always one that the exchange takes.
pub proof fn law_callback_rate_is_clamped(p: Managed, offset: Dec)
    requires
        p.callback_rate(offset) is Some,
    ensures
        lowest_callback().units() <= p.callback_rate(offset)->0.units()
            <= highest_callback().units(),
{
    assert(pow10(27) >= 1) by {
        crate::decimal::lemma_pow10_positive(27);
    }
}

/// The positions by symbol.
pub type Positions = Map<Seq<char>, Managed>;

/// A request for a position that is not there.
pub open spec fn no_position(symbol: Seq<char>) -> ExecutionFault {
    ExecutionFault::PositionNotFound { symbol }
}

/// The positions after the first take profit: only a position that has just been opened changes.
/// Nothing where a figure cannot be held.
pub open spec fn first_tp_done(
    book: Positions,
    symbol: Seq<char>,
    quantity: Dec,
    new_stop: Dec,
    placed: Option<&OcoOrderResult>,
) -> Option<Result<Positions, ExecutionFault>> {
    if !book.dom().contains(symbol) {
        Some(Err(no_position(symbol)))
    } else if book[symbol].state != TradeState::Open {
        Some(Ok(book))
    } else {
        let p = linked_opt(book[symbol], placed);
        match p.first_tp_pnl(quantity, new_stop) {
            Some(pnl) => match p.after_first_tp(quantity, pnl) {
                Some(next) => Some(Ok(book.insert(symbol, next))),
                None => None,
            },
            None => None,
        }
    }
}

/// The positions after a trailing stop was placed.
pub open spec fn trailing_done(book: Positions, symbol: Seq<char>, order_id: u64) -> Option<
    Result<Positions, ExecutionFault>,
> {
    if !book.dom().contains(symbol) {
        Some(Err(no_position(symbol)))
    } else if book[symbol].state == TradeState::TrailingActive {
        Some(Ok(book))
    } else {
        Some(Ok(book.insert(symbol, book[symbol].trailing(order_id))))
    }
}

/// The positions after one was closed at `now`: a position that is not active stays as it is.
pub open spec fn close_done(book: Positions, symbol: Seq<char>, now: Moment) -> Option<
    Result<Positions, ExecutionFault>,
> {
    if !book.dom().contains(symbol) {
        Some(Err(no_position(symbol)))
    } else if !book[symbol].active() {
        Some(Ok(book))
    } else {
        match book[symbol].closed(zero(), now) {
            Some(next) => Some(Ok(book.insert(symbol, next))),
            None => None,
        }
    }
}

/// The positions and the answer are what was to come of it: the positions change only where the
/// answer is a success.
pub open spec fn comes_of(
    before: Positions,
    after: Positions,
    r: Option<Result<(), ExecutionError>>,
    expected: Option<Result<Positions, ExecutionFault>>,
) -> bool {
    match expected {
        Some(Ok(book)) => r is Some && r->0 is Ok && after == book,
        Some(Err(e)) => r is Some && r->0 is Err && (r->0->Err_0)@ == e && after == before,
        None => r is None && after == before,
    }
}

impl ExecutionEngine {
    fn not_found(symbol: &str) -> (r: ExecutionError)
        ensures
            r@ == no_position(symbol@),
    {
        ExecutionError::PositionNotFound { symbol: symbol.to_owned() }
    }

    pub(crate) fn put(&mut self, symbol: &str, p: ManagedPosition)
        ensures
            final(self).book() == old(self).book().insert(symbol@, p@),
            final(self).same_setup(old(self)),
    {
        proof {
            lemma_models_insert(self.held(), symbol@, p);
        }
        self.positions.insert(symbol, p);
    }

    /// The steps of the first take profit, or the error; no steps where there is nothing to do or
    /// orders are simulated.
    pub open spec fn first_tp_plan(&self, symbol: Seq<char>, quantity: Dec, new_stop: Dec) -> Option<
        Result<Seq<Step>, ExecutionFault>,
    > {
        if !self.book().dom().contains(symbol) {
            Some(Err(no_position(symbol)))
        } else if self.book()[symbol].state != TradeState::Open || self.mock() {
            Some(Ok(Seq::empty()))
        } else {
            match self.book()[symbol].first_tp_steps(
                quantity,
                new_stop,
                self.slippage(),
                self.filters()[symbol],
            ) {
                Some(s) => Some(Ok(s)),
                None => None,
            }
        }
    }

    /// Plans the first take profit of a position.
    pub fn plan_first_tp(&self, symbol: &str, quantity_to_close: Volume, new_stop_loss: Price) -> (r:
        Option<Result<Vec<EngineStep>, ExecutionError>>)
        requires
            self.mock() || self.filters().dom().contains(symbol@),
        ensures
            match self.first_tp_plan(symbol@, quantity_to_close@, new_stop_loss@) {
                Some(a) => r is Some && steps_answer(r->0) == a,
                None => r is None,
            },
    {
        let none: Vec<EngineStep> = Vec::new();
        assert(step_views(none@) =~= Seq::<Step>::empty());
        match self.positions.get(symbol) {
            None => Some(Err(ExecutionEngine::not_found(symbol))),
            Some(p) => {
                if p.state != TradeState::Open || self.mock_mode {
                    return Some(Ok(none));
                }
                let steps = first_tp_steps_of(
                    p,
                    quantity_to_close,
                    new_stop_loss,
                    self.config.max_slippage,
                    self.filters_for(symbol),
                )?;
                Some(Ok(steps))
            },
        }
    }

    /// Keeps what the first take profit has done to a position.
    pub fn record_first_tp(
        &mut self,
        symbol: &str,
        quantity_to_close: Volume,
        new_stop_loss: Price,
        placed: Option<&OcoOrderResult>,
    ) -> (r: Option<Result<(), ExecutionError>>)
        ensures
            comes_of(
                old(self).book(),
                final(self).book(),
                r,
                first_tp_done(
                    old(self).book(),
                    symbol@,
                    quantity_to_close@,
                    new_stop_loss@,
                    placed,
                ),
            ),
            final(self).same_setup(old(self)),
    {
        let mut p = match self.positions.get(symbol) {
            None => {
                return Some(Err(ExecutionEngine::not_found(symbol)));
            },
            Some(p) => copy_position(p),
        };
        if p.state != TradeState::Open {
            return Some(Ok(()));
        }
        link(&mut p, placed);
        let per_unit = match p.direction {
            Position::Long => new_stop_loss.checked_sub(&p.entry_price),
            Position::Short => p.entry_price.checked_sub(&new_stop_loss),
            Position::Flat => Some(Decimal::zero()),
        };
        let pnl = mul_opt(
            mul_opt(per_unit, Some(quantity_to_close)),
            Some(config::first_tp_r_multiple()),
        )?;
        if !p.checked_transition_to_first_tp(quantity_to_close, pnl) {
            return None;
        }
        self.put(symbol, p);
        Some(Ok(()))
    }

    /// The steps that activate the trailing stop, or the error; no steps where there is nothing to
    /// do or orders are simulated.
    pub open spec fn trailing_plan(&self, symbol: Seq<char>, offset: Dec) -> Option<
        Result<Seq<Step>, ExecutionFault>,
    > {
        if !self.book().dom().contains(symbol) {
            Some(Err(no_position(symbol)))
        } else if self.book()[symbol].state == TradeState::TrailingActive || self.mock() {
            Some(Ok(Seq::empty()))
        } else {
            match self.book()[symbol].trailing_steps(offset) {
                Some(s) => Some(Ok(s)),
                None => None,
            }
        }
    }

    /// Plans the trailing stop of a position.
    pub fn plan_trailing(&self, symbol: &str, offset: Decimal) -> (r: Option<
        Result<Vec<EngineStep>, ExecutionError>,
    >)
        ensures
            match self.trailing_plan(symbol@, offset@) {
                Some(a) => r is Some && steps_answer(r->0) == a,
                None => r is None,
            },
    {
        let none: Vec<EngineStep> = Vec::new();
        assert(step_views(none@) =~= Seq::<Step>::empty());
        match self.positions.get(symbol) {
            None => Some(Err(ExecutionEngine::not_found(symbol))),
            Some(p) => {
                if p.state == TradeState::TrailingActive || self.mock_mode {
                    return Some(Ok(none));
                }
                let steps = trailing_steps_of(p, offset)?;
                Some(Ok(steps))
            },
        }
    }

    /// Keeps the trailing stop that was placed for a position.
    pub fn record_trailing(&mut self, symbol: &str, trailing_order_id: u64) -> (r: Result<
        (),
        ExecutionError,
    >)
        ensures
            comes_of(
                old(self).book(),
                final(self).book(),
                Some(r),
                trailing_done(old(self).book(), symbol@, trailing_order_id),
            ),
            final(self).same_setup(old(self)),
    {
        let mut p = match self.positions.get(symbol) {
            None => {
                return Err(ExecutionEngine::not_found(symbol));
            },
            Some(p) => copy_position(p),
        };
        if p.state == TradeState::TrailingActive {
            return Ok(());
        }
        p.transition_to_trailing(trailing_order_id);
        self.put(symbol, p);
        Ok(())
    }

    /// The steps that close a position, or the error; no steps where there is nothing to do or
    /// orders are simulated.
    pub open spec fn close_plan(&self, symbol: Seq<char>) -> Option<
        Result<Seq<Step>, ExecutionFault>,
    > {
        if !self.book().dom().contains(symbol) {
            Some(Err(no_position(symbol)))
        } else if !self.book()[symbol].active() || self.mock() {
            Some(Ok(Seq::empty()))
        } else {
            match self.book()[symbol].closing_steps(self.filters()[symbol]) {
                Some(s) => Some(Ok(s)),
                None => None,
            }
        }
    }

    /// Plans to close a position.
    pub fn plan_close(&self, symbol: &str) -> (r: Option<Result<Vec<EngineStep>, ExecutionError>>)
        requires
            self.mock() || self.filters().dom().contains(symbol@),
        ensures
            match self.close_plan(symbol@) {
                Some(a) => r is Some && steps_answer(r->0) == a,
                None => r is None,
            },
    {
        let none: Vec<EngineStep> = Vec::new();
        assert(step_views(none@) =~= Seq::<Step>::empty());
        match self.positions.get(symbol) {
            None => Some(Err(ExecutionEngine::not_found(symbol))),
            Some(p) => {
                if !p.is_active() || self.mock_mode {
                    return Some(Ok(none));
                }
                let steps = closing_steps_of(p, self.filters_for(symbol))?;
                Some(Ok(steps))
            },
        }
    }

    /// Keeps that a position was closed at `now`. With its steps done on the exchange, or simulated,
    /// this is the whole of closing a position.
    pub fn close_position(&mut self, symbol: &str, now: Timestamp) -> (r: Option<
        Result<(), ExecutionError>,
    >)
        ensures
            comes_of(
                old(self).book(),
                final(self).book(),
                r,
                close_done(old(self).book(), symbol@, now@),
            ),
            final(self).same_setup(old(self)),
    {
        let mut p = match self.positions.get(symbol) {
            None => {
                return Some(Err(ExecutionEngine::not_found(symbol)));
            },
            Some(p) => copy_position(p),
        };
        if !p.is_active() {
            return Some(Ok(()));
        }
        if p.realized_pnl.checked_add(&Decimal::zero()).is_none() {
            return None;
        }
        p.close_at(Decimal::zero(), now);
        self.put(symbol, p);
        Some(Ok(()))
    }
}

/// The identifier of a simulated trailing stop.
pub const MOCK_TRAILING_ORDER_ID: u64 = 12345;

/// The positions after one was evaluated at a price and what came of it was done, with simulated
/// orders, and the action that was taken. Nothing where a figure cannot be held.
pub open spec fn monitored(book: Positions, symbol: Seq<char>, price: Dec, now: Moment) -> Option<
    Result<(Positions, Management), ExecutionFault>,
> {
    if !book.dom().contains(symbol) {
        Some(Err(no_position(symbol)))
    } else {
        match book[symbol].evaluated(price) {
            None => None,
            Some(action) => {
                let next = match action {
                    Management::FirstTp { quantity, new_stop_loss } => first_tp_done(
                        book,
                        symbol,
                        quantity,
                        new_stop_loss,
                        None,
                    ),
                    Management::Trail { offset } => trailing_done(
                        book,
                        symbol,
                        MOCK_TRAILING_ORDER_ID,
                    ),
                    Management::Close { reason } => close_done(book, symbol, now),
                    Management::Hold => Some(Ok(book)),
                };
                match next {
                    Some(Ok(b)) => Some(Ok((b, action))),
                    Some(Err(e)) => Some(Err(e)),
                    None => None,
                }
            },
        }
    }
}

/// Monitoring one symbol leaves every other symbol's position alone.
pub proof fn law_monitoring_is_local(
    book: Positions,
    symbol: Seq<char>,
    price: Dec,
    now: Moment,
    other: Seq<char>,
)
    requires
        other != symbol,
        monitored(book, symbol, price, now) is Some,
        monitored(book, symbol, price, now)->0 is Ok,
    ensures
        ({
            let next = (monitored(book, symbol, price, now)->0->Ok_0).0;
            &&& next.dom().contains(other) == book.dom().contains(other)
            &&& book.dom().contains(other) ==> next[other] == book[other]
        }),
{
}

/// Monitoring never sends a position back to an earlier state, and at the first take profit the
/// stop goes to breakeven.
pub proof fn law_monitoring_goes_forward(
    book: Positions,
    symbol: Seq<char>,
    price: Dec,
    now: Moment,
)
    requires
        book.dom().contains(symbol),
        monitored(book, symbol, price, now) is Some,
        monitored(book, symbol, price, now)->0 is Ok,
    ensures
        ({
            let next = (monitored(book, symbol, price, now)->0->Ok_0).0[symbol];
            &&& next.state.rank() >= book[symbol].state.rank()
            &&& next.entry_price == book[symbol].entry_price
            &&& next.state == TradeState::FirstTpHit && book[symbol].state == TradeState::Open
                ==> next.current_stop_loss == next.entry_price
        }),
{
}

/// The models of a list of positions.
pub open spec fn position_views(v: Seq<ManagedPosition>) -> Seq<Managed> {
    v.map_values(|p: ManagedPosition| p@)
}

/// The active positions among the first `n` entries.
pub open spec fn active_models(
    entries: Seq<crate::symbol_map::Entry<ManagedPosition>>,
    n: nat,
) -> Seq<Managed>
    decreases n,
{
    if n == 0 {
        Seq::empty()
    } else {
        let before = active_models(entries, (n - 1) as nat);
        if entries[n - 1].value@.active() {
            before.push(entries[n - 1].value@)
        } else {
            before
        }
    }
}

impl ExecutionEngine {
    /// The positions with their symbols, in the order in which the symbols came.
    pub closed spec fn entries(&self) -> Seq<crate::symbol_map::Entry<ManagedPosition>> {
        self.positions.entry_seq()
    }

    /// What to do with the position of a symbol at a price.
    pub fn evaluate(&self, symbol: &str, current_price: Price) -> (r: Option<
        Result<ManagementAction, ExecutionError>,
    >)
        ensures
            if !self.book().dom().contains(symbol@) {
                r is Some && r->0 is Err && (r->0->Err_0)@ == no_position(symbol@)
            } else {
                match self.book()[symbol@].evaluated(current_price@) {
                    Some(a) => r is Some && r->0 is Ok && (r->0->Ok_0)@ == a,
                    None => r is None,
                }
            },
    {
        match self.positions.get(symbol) {
            None => Some(Err(ExecutionEngine::not_found(symbol))),
            Some(p) => {
                let action = checked_evaluate_position(p, current_price)?;
                Some(Ok(action))
            },
        }
    }

    /// Evaluates the position of a symbol at a price and does what comes of it, with simulated
    /// orders.
    pub fn monitor_position(&mut self, symbol: &str, current_price: Price, now: Timestamp) -> (r:
        Option<Result<ManagementAction, ExecutionError>>)
        requires
            old(self).mock(),
        ensures
            final(self).same_setup(old(self)),
            match monitored(old(self).book(), symbol@, current_price@, now@) {
                Some(Ok(done)) => r is Some && r->0 is Ok && (r->0->Ok_0)@ == done.1 && final(self).book() == done.0,
                Some(Err(e)) => r is Some && r->0 is Err && (r->0->Err_0)@ == e && final(self).book() == old(self).book(),
                None => r is None && final(self).book() == old(self).book(),
            },
    {
        let action = match self.evaluate(symbol, current_price)? {
            Ok(a) => a,
            Err(e) => {
                return Some(Err(e));
            },
        };
        let answer = match &action {
            ManagementAction::ExecuteFirstTp { quantity_to_close, new_stop_loss } =>
                self.record_first_tp(symbol, *quantity_to_close, *new_stop_loss, None)?,
            ManagementAction::ActivateTrailingStop { offset } => self.record_trailing(
                symbol,
                MOCK_TRAILING_ORDER_ID,
            ),
            ManagementAction::ClosePosition { reason } => self.close_position(symbol, now)?,
            ManagementAction::Hold => Ok(()),
        };
        match answer {
            Ok(()) => Some(Ok(action)),
            Err(e) => Some(Err(e)),
        }
    }

    /// Returns the position of a symbol, if any.
    pub fn get_position(&self, symbol: &str) -> (r: Option<&ManagedPosition>)
        ensures
            match r {
                Some(p) => self.book().dom().contains(symbol@) && p@ == self.book()[symbol@],
                None => !self.book().dom().contains(symbol@),
            },
    {
        self.positions.get(symbol)
    }

    /// Returns all currently active positions.
    pub fn get_all_positions(&self) -> (r: Vec<ManagedPosition>)
        ensures
            position_views(r@) == active_models(self.entries(), self.entries().len()),
            self.held() == crate::symbol_map::map_of(self.entries()),
            crate::symbol_map::distinct_keys(self.entries()),
    {
        let n: usize = self.positions.len();
        let mut found: Vec<ManagedPosition> = Vec::new();
        let mut i: usize = 0;
        assert(position_views(found@) =~= Seq::<Managed>::empty());
        while i < n
            invariant
                i <= n,
                n as int == self.entries().len(),
                position_views(found@) == active_models(self.entries(), i as nat),
            decreases n - i,
        {
            let e = self.positions.entry(i);
            if e.value.is_active() {
                let ghost before = found@;
                let p = copy_position(&e.value);
                found.push(p);
                assert(position_views(found@) =~= position_views(before).push(p@));
            }
            i = i + 1;
        }
        found
    }

    /// Removes a position from the tracker (call after it is confirmed closed).
    pub fn remove_position(&mut self, symbol: &str) -> (r: Option<ManagedPosition>)
        ensures
            final(self).book() == old(self).book().remove(symbol@),
            final(self).same_setup(old(self)),
            match r {
                Some(p) => old(self).book().dom().contains(symbol@) && p@ == old(
                    self,
                ).book()[symbol@],
                None => !old(self).book().dom().contains(symbol@),
            },
    {
        let ghost before = self.held();
        let r = self.positions.remove(symbol);
        assert(models(before.remove(symbol@)) =~= models(before).remove(symbol@));
        r
    }
}

/// The last step protects the position on the exchange: an order list with a stop and a target, on
/// the closing side.
pub open spec fn ends_protected(steps: Seq<Step>, direction: Position) -> bool {
    steps.len() > 0 && match steps.last() {
        Step::Oco { side, quantity, take_profit, stop_trigger, stop_limit } => side
            == opening_side(direction).other(),
        _ => false,
    }
}

/// Every position that is opened on the exchange is protected there: the entry is followed by an
/// order list for the same quantity, with the stop and the target at valid prices.
pub proof fn law_opening_is_protected(
    direction: Position,
    quantity: Dec,
    stop: Dec,
    target: Dec,
    slippage: Dec,
    f: SymbolFilters,
)
    requires
        opening_steps(direction, quantity, stop, target, slippage, f) is Some,
    ensures
        ({
            let steps = opening_steps(direction, quantity, stop, target, slippage, f)->0;
            &&& ends_protected(steps, direction)
            &&& steps.len() == 4
            &&& steps[2] == (Step::Market {
                side: opening_side(direction),
                quantity: steps[3]->Oco_quantity,
                reduce_only: false,
            })
            &&& Some(steps[3]->take_profit) == ticked(target, f.tick_size@)
            &&& Some(steps[3]->stop_trigger) == ticked(stop, f.tick_size@)
        }),
{
}

/// After the first take profit the rest of the position is protected again.
pub proof fn law_first_tp_is_protected(
    p: Managed,
    quantity: Dec,
    new_stop: Dec,
    slippage: Dec,
    f: SymbolFilters,
)
    requires
        p.first_tp_steps(quantity, new_stop, slippage, f) is Some,
    ensures
        ends_protected(p.first_tp_steps(quantity, new_stop, slippage, f)->0, p.direction),
{
}

/// A price is rounded to the nearest tick: the result is a whole number of ticks, and no farther from
/// the price than half a tick, wherever the division by the tick is exact and the result fits.
pub proof fn law_tick_is_nearest(price: Dec, tick: Dec)
    requires
        price.valid(),
        tick.valid(),
        tick.m > 0,
        quotient(price, tick) is Some,
        quotient(price, tick)->0.s <= 28,
        quotient(price, tick)->0.units() * tick.units() == price.units() * pow10(28),
        (Dec { m: quotient(price, tick)->0.rounded(0).m * tick.m, s: tick.s }).valid(),
    ensures
        ticked(price, tick) is Some,
        exists|k: int| ticked(price, tick)->0.units() == #[trigger] (k * tick.units()),
        2 * (ticked(price, tick)->0.units() - price.units()) <= tick.units(),
        2 * (price.units() - ticked(price, tick)->0.units()) <= tick.units(),
{
    let q = quotient(price, tick)->0;
    let f = q.rounded(0);
    law_rounding_is_nearest(q, 0);
    let t = pow10(28);
    let b = pow10((28 - tick.s) as nat);
    let k = f.m;
    let m = tick.m;
    let u = tick.units();
    let v = price.units();
    lemma_pow10_positive(28);
    lemma_pow10_positive((28 - tick.s) as nat);
    let r = ticked(price, tick)->0.units();
    assert(r == k * u) by {
        assert(k * m * b == k * (m * b)) by (nonlinear_arith);
        if k * m == 0 {
            assert(zero().units() == 0 * pow10(28));
            assert(k * (m * b) == 0) by (nonlinear_arith)
                requires
                    k * m == 0,
            ;
        }
    }
    assert(f.units() == k * t);
    let w = q.units();
    assert(u > 0) by (nonlinear_arith)
        requires
            u == m * b,
            m > 0,
            b >= 1,
    ;
    assert(2 * (k * t - w) <= t && 2 * (w - k * t) <= t);
    assert((k * t - w) * u == (k * u - v) * t) by (nonlinear_arith)
        requires
            w * u == v * t,
    ;
    let x = k * u - v;
    let y = k * t - w;
    assert(2 * x <= u && -2 * x <= u) by (nonlinear_arith)
        requires
            y * u == x * t,
            2 * y <= t,
            -2 * y <= t,
            u > 0,
            t >= 1,
    ;
    assert(r == k * u);
}

/// The orders that open a position, one by one: what is open for the symbol is canceled, standard and
/// conditional orders; a long position is entered by a purchase, any other by a sale, of the quantity
/// rounded down to the step; and an order list of the same quantity on the other side protects it,
/// with its target and its trigger at the ticks nearest to those asked for, and the limit behind the
/// trigger.
pub proof fn law_opening_orders(
    direction: Position,
    quantity: Dec,
    stop: Dec,
    target: Dec,
    slippage: Dec,
    f: SymbolFilters,
)
    requires
        opening_steps(direction, quantity, stop, target, slippage, f) is Some,
    ensures
        ({
            let steps = opening_steps(direction, quantity, stop, target, slippage, f)->0;
            let (enter, leave) = if direction == Position::Long {
                (OrderSide::Buy, OrderSide::Sell)
            } else {
                (OrderSide::Sell, OrderSide::Buy)
            };
            &&& steps.len() == 4
            &&& steps[0] is CancelOpenOrders
            &&& steps[1] is CancelAlgoOrders
            &&& steps[2] is Market && steps[2]->Market_side == enter && !steps[2]->reduce_only
            &&& Some(steps[2]->Market_quantity) == stepped(quantity, f.step_size@)
            &&& steps[3] is Oco && steps[3]->Oco_side == leave
            &&& steps[3]->Oco_quantity == steps[2]->Market_quantity
            &&& Some(steps[3]->take_profit) == ticked(target, f.tick_size@)
            &&& Some(steps[3]->stop_trigger) == ticked(stop, f.tick_size@)
            &&& stop_limit(leave, stop, slippage) is Some
            &&& Some(steps[3]->stop_limit) == ticked(
                stop_limit(leave, stop, slippage)->0,
                f.tick_size@,
            )
        }),
{
}

/// The orders of the first take profit, one by one: the part is closed at the market on the closing side, rounded down to the step and only
/// to reduce, and a new order list on that side protects what is left: its trigger is the new stop and
/// its target the position's target, each at the nearest tick, its quantity what is left of the
/// position, rounded down to the step, and its limit lies behind the new stop.
pub proof fn law_first_tp_orders(
    p: Managed,
    quantity: Dec,
    new_stop: Dec,
    slippage: Dec,
    f: SymbolFilters,
)
    requires
        p.first_tp_steps(quantity, new_stop, slippage, f) is Some,
    ensures
        ({
            let steps = p.first_tp_steps(quantity, new_stop, slippage, f)->0;
            let n = steps.len();
            let leave = if p.direction == Position::Long {
                OrderSide::Sell
            } else {
                OrderSide::Buy
            };
            let oco = steps[n - 1];
            let market = steps[n - 2];
            &&& n >= 2
            &&& oco is Oco && oco->Oco_side == leave
            &&& Some(oco->stop_trigger) == ticked(new_stop, f.tick_size@)
            &&& Some(oco->take_profit) == ticked(p.take_profit, f.tick_size@)
            &&& difference(p.current_quantity, quantity) is Some
            &&& Some(oco->Oco_quantity) == stepped(
                difference(p.current_quantity, quantity)->0,
                f.step_size@,
            )
            &&& stop_limit(leave, new_stop, slippage) is Some
            &&& Some(oco->stop_limit) == ticked(
                stop_limit(leave, new_stop, slippage)->0,
                f.tick_size@,
            )
            &&& market is Market && market->Market_side == leave && market->reduce_only
            &&& Some(market->Market_quantity) == stepped(quantity, f.step_size@)
        }),
{
}

/// Before anything else the first take profit cancels the orders that protected the position, and no
/// others.
pub proof fn law_first_tp_cancels_first(
    p: Managed,
    quantity: Dec,
    new_stop: Dec,
    slippage: Dec,
    f: SymbolFilters,
)
    requires
        p.first_tp_steps(quantity, new_stop, slippage, f) is Some,
    ensures
        ({
            let steps = p.first_tp_steps(quantity, new_stop, slippage, f)->0;
            &&& steps.len() >= 2
            &&& cancels(
                steps.take(steps.len() - 2),
                p.stop_loss_order_id,
                p.take_profit_order_id,
                None,
            )
        }),
{
    let steps = p.first_tp_steps(quantity, new_stop, slippage, f)->0;
    let n = steps.len();
    lemma_cancels(p.stop_loss_order_id, p.take_profit_order_id, None);
    assert(steps.take(n - 2) =~= cancellation(p.stop_loss_order_id) + cancellation(
        p.take_profit_order_id,
    ) + cancellation(None));
}

/// The steps cancel each of the given orders, and do nothing else.
pub open spec fn cancels(
    steps: Seq<Step>,
    first: Option<u64>,
    second: Option<u64>,
    third: Option<u64>,
) -> bool {
    &&& forall|i: int|
        0 <= i < steps.len() ==> (#[trigger] steps[i]) is CancelAlgoOrder && {
            ||| Some(steps[i]->order_id) == first
            ||| Some(steps[i]->order_id) == second
            ||| Some(steps[i]->order_id) == third
        }
    &&& first is Some ==> exists|i: int|
        0 <= i < steps.len() && (#[trigger] steps[i]) == (Step::CancelAlgoOrder { order_id: first->0 })
    &&& second is Some ==> exists|i: int|
        0 <= i < steps.len() && (#[trigger] steps[i]) == (Step::CancelAlgoOrder {
            order_id: second->0,
        })
    &&& third is Some ==> exists|i: int|
        0 <= i < steps.len() && (#[trigger] steps[i]) == (Step::CancelAlgoOrder { order_id: third->0 })
}

proof fn lemma_cancels(first: Option<u64>, second: Option<u64>, third: Option<u64>)
    ensures
        cancels(
            cancellation(first) + cancellation(second) + cancellation(third),
            first,
            second,
            third,
        ),
{
    let steps = cancellation(first) + cancellation(second) + cancellation(third);
    if first is Some {
        assert(steps[0] == Step::CancelAlgoOrder { order_id: first->0 });
    }
    if second is Some {
        assert(steps[cancellation(first).len() as int] == Step::CancelAlgoOrder {
            order_id: second->0,
        });
    }
    if third is Some {
        assert(steps[(cancellation(first).len() + cancellation(second).len()) as int]
            == Step::CancelAlgoOrder { order_id: third->0 });
    }
}

/// The orders that bring a trailing stop: the fixed orders are canceled, and the trailing stop closes
/// the position on its closing side. Its callback rate is the offset in percent of the entry price, up
/// to the rounding of a division and a product, where that lies between 0.1 and 5; below it is 0.1 and
/// above it is 5.
pub proof fn law_trailing_orders(p: Managed, offset: Dec)
    requires
        p.trailing_steps(offset) is Some,
        offset.valid(),
        p.entry_price.valid(),
    ensures
        ({
            let steps = p.trailing_steps(offset)->0;
            let n = steps.len();
            let last = steps[n - 1];
            &&& n >= 1
            &&& last is TrailingStop
            &&& last->TrailingStop_side == if p.direction == Position::Long {
                OrderSide::Sell
            } else {
                OrderSide::Buy
            }
            &&& cancels(steps.take(n - 1), p.stop_loss_order_id, p.take_profit_order_id, None)
            &&& pow10(27) <= last->callback_rate.units() <= 50 * pow10(27)
            &&& exists|share: int, rate: int|
                {
                    &&& #[trigger] rounds_to(
                        offset.units() * pow10(28),
                        p.entry_price.units(),
                        share,
                    )
                    &&& #[trigger] rounds_to(100 * share * pow10(28), pow10(28), rate)
                    &&& last->callback_rate.units() == if rate < pow10(27) {
                        pow10(27)
                    } else if rate > 50 * pow10(27) {
                        50 * pow10(27)
                    } else {
                        rate
                    }
                }
        }),
{
    let steps = p.trailing_steps(offset)->0;
    let n = steps.len();
    lemma_cancels(p.stop_loss_order_id, p.take_profit_order_id, None);
    assert(steps.take(n - 1) =~= cancellation(p.stop_loss_order_id) + cancellation(
        p.take_profit_order_id,
    ) + cancellation(None));
    lemma_pow10_positive(27);
    assert(lowest_callback().units() == pow10(27));
    assert(highest_callback().units() == 50 * pow10(27));
    let q = quotient(offset, p.entry_price)->0;
    law_quotient_is_rounded(offset, p.entry_price);
    law_product_is_rounded(q, whole(100));
    let r = product(q, whole(100))->0;
    assert(whole(100).units() == 100 * pow10(28));
    let s = q.units();
    assert(s * (100 * pow10(28)) == 100 * s * pow10(28)) by (nonlinear_arith);
    assert(rounds_to(offset.units() * pow10(28), p.entry_price.units(), s));
    assert(rounds_to(100 * s * pow10(28), pow10(28), r.units()));
}

/// The orders that close a position: every order that belongs to it is canceled, and what is left of
/// it, rounded down to the step, is closed at the market, on the closing side and only to reduce.
pub proof fn law_closing_orders(p: Managed, f: SymbolFilters)
    requires
        p.closing_steps(f) is Some,
    ensures
        ({
            let steps = p.closing_steps(f)->0;
            let n = steps.len();
            let last = steps[n - 1];
            &&& n >= 1
            &&& last is Market && last->reduce_only
            &&& last->Market_side == if p.direction == Position::Long {
                OrderSide::Sell
            } else {
                OrderSide::Buy
            }
            &&& Some(last->Market_quantity) == stepped(p.current_quantity, f.step_size@)
            &&& cancels(
                steps.take(n - 1),
                p.stop_loss_order_id,
                p.take_profit_order_id,
                p.trailing_stop_order_id,
            )
        }),
{
    let steps = p.closing_steps(f)->0;
    let n = steps.len();
    lemma_cancels(p.stop_loss_order_id, p.take_profit_order_id, p.trailing_stop_order_id);
    assert(steps.take(n - 1) =~= cancellation(p.stop_loss_order_id) + cancellation(
        p.take_profit_order_id,
    ) + cancellation(p.trailing_stop_order_id));
}

/// The prices of a simulated fill can be moved without loss: the entry with the slippage in it is
/// `at`.
pub open spec fn fill_fits(entry: Dec, stop: Dec, target: Dec, at: Dec) -> bool {
    let to_stop = difference(entry, stop)->0.magnitude();
    let to_target = difference(target, entry)->0.magnitude();
    &&& entry.valid() && stop.valid() && target.valid() && at.valid()
    &&& aligned_sum(entry, stop.negated()).valid()
    &&& aligned_sum(target, entry.negated()).valid()
    &&& aligned_sum(at, to_stop).valid() && aligned_sum(at, to_stop.negated()).valid()
    &&& aligned_sum(at, to_target).valid() && aligned_sum(at, to_target.negated()).valid()
}

/// A simulated fill is worse than what was asked for by a thousandth: a long position is entered
/// higher, a short one lower. The stop and the target move along: both are exactly as far from the
/// filled entry as they were from the one asked for, the stop of a long position below it and the
/// target above, of a short one the other way round.
pub proof fn law_simulated_fill_by_value(direction: Position, entry: Dec, stop: Dec, target: Dec)
    requires
        mock_prices(direction, entry, stop, target) is Some,
        entry.valid(),
        fill_fits(entry, stop, target, (mock_prices(direction, entry, stop, target)->0).0),
    ensures
        ({
            let (at, new_stop, new_target) = mock_prices(direction, entry, stop, target)->0;
            let stop_distance = if entry.units() >= stop.units() {
                entry.units() - stop.units()
            } else {
                stop.units() - entry.units()
            };
            let target_distance = if target.units() >= entry.units() {
                target.units() - entry.units()
            } else {
                entry.units() - target.units()
            };
            &&& direction == Position::Long ==> {
                &&& rounds_to(1001 * entry.units(), 1000, at.units())
                &&& new_stop.units() == at.units() - stop_distance
                &&& new_target.units() == at.units() + target_distance
            }
            &&& direction == Position::Short ==> {
                &&& rounds_to(999 * entry.units(), 1000, at.units())
                &&& new_stop.units() == at.units() + stop_distance
                &&& new_target.units() == at.units() - target_distance
            }
            &&& direction == Position::Flat ==> at == entry && new_stop == stop && new_target
                == target
        }),
{
    let (at, new_stop, new_target) = mock_prices(direction, entry, stop, target)->0;
    law_difference_is_exact(entry, stop);
    law_difference_is_exact(target, entry);
    let a = difference(entry, stop)->0;
    let b = difference(target, entry)->0;
    lemma_magnitude(a);
    lemma_magnitude(b);
    law_sum_is_exact(at, a.magnitude());
    law_difference_is_exact(at, a.magnitude());
    law_sum_is_exact(at, b.magnitude());
    law_difference_is_exact(at, b.magnitude());
    lemma_slipped(entry, direction);
}

/// A number without its sign has the same distance from zero.
pub proof fn lemma_magnitude(d: Dec)
    requires
        d.valid(),
    ensures
        d.magnitude().valid(),
        d.magnitude().units() == if d.units() >= 0 {
            d.units()
        } else {
            -d.units()
        },
{
    let m = d.m;
    let w = pow10((28 - d.s) as nat);
    lemma_pow10_positive((28 - d.s) as nat);
    assert((-m) * w == -(m * w)) by (nonlinear_arith);
    crate::decimal::lemma_units_sign(d);
}

/// An entry with the slippage in it is a thousandth above or below the one asked for.
pub proof fn lemma_slipped(entry: Dec, direction: Position)
    requires
        entry.valid(),
    ensures
        direction == Position::Long && product_of(
            Some(entry),
            sum(whole(1), config::mock_slippage()),
        ) is Some ==> rounds_to(
            1001 * entry.units(),
            1000,
            product_of(Some(entry), sum(whole(1), config::mock_slippage()))->0.units(),
        ),
        direction == Position::Short && product_of(
            Some(entry),
            difference(whole(1), config::mock_slippage()),
        ) is Some ==> rounds_to(
            999 * entry.units(),
            1000,
            product_of(Some(entry), difference(whole(1), config::mock_slippage()))->0.units(),
        ),
{
    let slip = config::mock_slippage();
    let w = pow10(25);
    let p = pow10(28);
    lemma_pow10_positive(25);
    lemma_pow10_add(3, 25);
    reveal_with_fuel(pow10, 4);
    assert(p == 1000 * w);
    assert(slip.units() == w);
    assert(whole(1).units() == p);
    assert(pow10(3) == 1000);
    assert(aligned_sum(whole(1), slip) == (Dec { m: 1001, s: 3 })) by {
        assert(1 * pow10(3) + 1 * pow10(0) == 1001);
    }
    assert(aligned_sum(whole(1), slip.negated()) == (Dec { m: 999, s: 3 })) by {
        assert(1 * pow10(3) + (-1) * pow10(0) == 999);
    }
    law_sum_is_exact(whole(1), slip);
    law_difference_is_exact(whole(1), slip);
    let u = entry.units();
    if direction == Position::Long && product(entry, sum(whole(1), slip)->0) is Some {
        law_product_is_rounded(entry, sum(whole(1), slip)->0);
        assert(u * (1001 * w) == (1001 * u) * w) by (nonlinear_arith);
        lemma_rounds_scaled(
            u * (1001 * w),
            1000,
            w,
            1001 * u,
            product(entry, sum(whole(1), slip)->0)->0.units(),
        );
    }
    if direction == Position::Short && product(entry, difference(whole(1), slip)->0) is Some {
        law_product_is_rounded(entry, difference(whole(1), slip)->0);
        assert(u * (999 * w) == (999 * u) * w) by (nonlinear_arith);
        lemma_rounds_scaled(
            u * (999 * w),
            1000,
            w,
            999 * u,
            product(entry, difference(whole(1), slip)->0)->0.units(),
        );
    }
}

/// Rounding looks at the ratio only.
proof fn lemma_rounds_scaled(n: int, d: int, w: int, m: int, q: int)
    requires
        w >= 1,
        d >= 1,
        rounds_to(n, d * w, q),
        n == m * w,
    ensures
        rounds_to(m, d, q),
{
    let t = pow10(27);
    lemma_pow10_positive(27);
    let e = q * (d * w) - n;
    let f = q * d - m;
    assert(e == f * w) by (nonlinear_arith)
        requires
            e == q * (d * w) - n,
            f == q * d - m,
            n == m * w,
    ;
    assert(d * w >= 1) by (nonlinear_arith)
        requires
            d >= 1,
            w >= 1,
    ;
    let x = abs_int(e);
    let y = abs_int(f);
    assert(x == y * w) by (nonlinear_arith)
        requires
            e == f * w,
            w >= 1,
            x == abs_int(e),
            y == abs_int(f),
    ;
    let g = t + abs_int(q);
    assert(y * t <= d * g) by (nonlinear_arith)
        requires
            x * t <= (d * w) * g,
            x == y * w,
            w >= 1,
    ;
    assert((n < 0) == (m < 0)) by (nonlinear_arith)
        requires
            n == m * w,
            w >= 1,
    ;
}

/// A filled position keeps the order of its prices: where the stop that was asked for was below the
/// entry of a long position and its target above, so they are of the filled one; of a short position
/// the other way round.
pub proof fn law_simulated_fill_keeps_order(direction: Position, entry: Dec, stop: Dec, target: Dec)
    requires
        mock_prices(direction, entry, stop, target) is Some,
        entry.valid(),
        fill_fits(entry, stop, target, (mock_prices(direction, entry, stop, target)->0).0),
    ensures
        ({
            let (at, new_stop, new_target) = mock_prices(direction, entry, stop, target)->0;
            &&& direction == Position::Long && stop.units() < entry.units() < target.units()
                ==> new_stop.units() < at.units() < new_target.units()
            &&& direction == Position::Short && target.units() < entry.units() < stop.units()
                ==> new_target.units() < at.units() < new_stop.units()
        }),
{
    law_simulated_fill_by_value(direction, entry, stop, target);
}

impl ExecutionEngine {
    /// A funding rate is refused where it is farther from zero than the limit, on either side.
    pub proof fn law_funding_refusal_by_value(&self, rate: Dec)
        requires
            rate.valid(),
        ensures
            self.refuses(rate) == (rate.units() > self.rate_limit().units() || -rate.units()
                > self.rate_limit().units()),
    {
        lemma_magnitude(rate);
    }

    /// A limit order to buy goes up to the ask and the slippage, one to sell down to the bid less the
    /// slippage, up to a rounding.
    pub proof fn law_limit_price_by_value(&self, ticker: PriceTicker, side: OrderSide)
        requires
            self.limit_price(ticker, side) is Some,
            ticker.ask@.valid(),
            ticker.bid@.valid(),
            self.slippage().valid(),
            aligned_sum(whole(1), self.slippage()).valid(),
            aligned_sum(whole(1), self.slippage().negated()).valid(),
        ensures
            side == OrderSide::Buy ==> rounds_to(
                ticker.ask@.units() * (pow10(28) + self.slippage().units()),
                pow10(28),
                self.limit_price(ticker, side)->0.units(),
            ),
            side == OrderSide::Sell ==> rounds_to(
                ticker.bid@.units() * (pow10(28) - self.slippage().units()),
                pow10(28),
                self.limit_price(ticker, side)->0.units(),
            ),
    {
        let one = whole(1);
        assert(one.s == 0 && one.m == 1);
        assert(one.units() == 1 * pow10(28));
        law_sum_is_exact(whole(1), self.slippage());
        law_difference_is_exact(whole(1), self.slippage());
        match side {
            OrderSide::Buy => law_product_is_rounded(
                ticker.ask@,
                sum(whole(1), self.slippage())->0,
            ),
            OrderSide::Sell => law_product_is_rounded(
                ticker.bid@,
                difference(whole(1), self.slippage())->0,
            ),
        }
    }

    /// What an opening gives, by value: a position of the symbol, direction, quantity and range that
    /// were asked for, opened at that moment, that has just been opened. On the exchange it has the
    /// prices that were asked for and its risk is the distance of the two; simulated, it has the
    /// prices of the simulated fill and no orders are needed.
    pub proof fn law_opening_by_value(
        &self,
        symbol: Seq<char>,
        direction: Position,
        entry: Dec,
        stop: Dec,
        target: Dec,
        quantity: Dec,
        atr: Dec,
        funding: Option<Dec>,
        now: Moment,
        o: Opening,
    )
        requires
            self.opening(symbol, direction, entry, stop, target, quantity, atr, funding, now) == Some(
                Ok::<Opening, ExecutionFault>(o),
            ),
            entry.valid(),
            stop.valid(),
            aligned_sum(entry, stop.negated()).valid(),
        ensures
            funding is Some ==> !self.refuses(funding->0),
            o.position.symbol == symbol,
            o.position.direction == direction,
            o.position.current_quantity == quantity,
            o.position.original_quantity == quantity,
            o.position.atr_value == atr,
            o.position.opened_at == now,
            o.position.state == TradeState::Open,
            o.position.realized_pnl.m == 0,
            !self.mock() ==> {
                &&& o.position.entry_price == entry
                &&& o.position.current_stop_loss == stop
                &&& o.position.take_profit == target
                &&& o.position.risk_per_unit.units() == if entry.units() >= stop.units() {
                    entry.units() - stop.units()
                } else {
                    stop.units() - entry.units()
                }
                &&& opening_steps(
                    direction,
                    quantity,
                    stop,
                    target,
                    self.slippage(),
                    self.filters()[symbol],
                ) == Some(o.steps)
            },
            self.mock() ==> {
                &&& o.steps.len() == 0
                &&& mock_prices(direction, entry, stop, target) == Some(
                    (o.position.entry_price, o.position.current_stop_loss, o.position.take_profit),
                )
                &&& ({
                    let at = o.position.entry_price;
                    let level = o.position.current_stop_loss;
                    at.valid() && level.valid() && aligned_sum(at, level.negated()).valid()
                        ==> o.position.risk_per_unit.units() == if at.units() >= level.units() {
                        at.units() - level.units()
                    } else {
                        level.units() - at.units()
                    }
                })
            },
    {
        law_difference_is_exact(entry, stop);
        lemma_magnitude(difference(entry, stop)->0);
        let at = o.position.entry_price;
        let level = o.position.current_stop_loss;
        if self.mock() && at.valid() && level.valid() && aligned_sum(at, level.negated()).valid() {
            law_difference_is_exact(at, level);
            lemma_magnitude(difference(at, level)->0);
        }
    }

    /// A funding rate beyond the limit opens nothing, whatever else is asked, and is named.
    pub proof fn law_funding_comes_first(
        &self,
        symbol: Seq<char>,
        direction: Position,
        entry: Dec,
        stop: Dec,
        target: Dec,
        quantity: Dec,
        atr: Dec,
        rate: Dec,
        now: Moment,
    )
        requires
            self.refuses(rate),
        ensures
            self.opening(symbol, direction, entry, stop, target, quantity, atr, Some(rate), now)
                == Some(
                Err::<Opening, ExecutionFault>(
                    ExecutionFault::FundingRateTooHigh { rate, limit: self.rate_limit() },
                ),
            ),
    {
    }

    /// On the exchange each plan has the orders of the position that it is for, and only while there is
    /// something to do: the first profit is taken once, a trailing stop is placed once, and a closed
    /// position is not closed again. Simulated positions need no orders, and a symbol without a
    /// position is named.
    pub proof fn law_plans_are_for_their_position(
        &self,
        symbol: Seq<char>,
        quantity: Dec,
        new_stop: Dec,
        offset: Dec,
    )
        ensures
            !self.book().dom().contains(symbol) ==> {
                let missing = Some(
                    Err::<Seq<Step>, ExecutionFault>(ExecutionFault::PositionNotFound { symbol }),
                );
                &&& self.first_tp_plan(symbol, quantity, new_stop) == missing
                &&& self.trailing_plan(symbol, offset) == missing
                &&& self.close_plan(symbol) == missing
            },
            self.book().dom().contains(symbol) && !self.mock() ==> {
                let p = self.book()[symbol];
                &&& self.first_tp_plan(symbol, quantity, new_stop) matches Some(Ok(steps)) ==> {
                    &&& p.state != TradeState::Open ==> steps.len() == 0
                    &&& p.state == TradeState::Open ==> p.first_tp_steps(
                        quantity,
                        new_stop,
                        self.slippage(),
                        self.filters()[symbol],
                    ) == Some(steps)
                }
                &&& self.trailing_plan(symbol, offset) matches Some(Ok(steps)) ==> {
                    &&& p.state == TradeState::TrailingActive ==> steps.len() == 0
                    &&& p.state != TradeState::TrailingActive ==> p.trailing_steps(offset) == Some(
                        steps,
                    )
                }
                &&& self.close_plan(symbol) matches Some(Ok(steps)) ==> {
                    &&& p.state == TradeState::Closed || p.current_quantity.units() <= zero().units()
                        ==> steps.len() == 0
                    &&& p.state != TradeState::Closed && p.current_quantity.units() > zero().units()
                        ==> p.closing_steps(self.filters()[symbol]) == Some(steps)
                }
            },
    {
    }
}

/// The profit that is booked at the first take profit: the gain of the new stop on the entry, times
/// the quantity that is closed, times one and a half, each product rounded. At breakeven it is nothing.
pub proof fn law_first_tp_profit_by_value(p: Managed, quantity: Dec, new_stop: Dec)
    requires
        comparable(p, new_stop),
        quantity.valid(),
        p.first_tp_pnl(quantity, new_stop) is Some,
    ensures
        exists|x: int|
            {
                &&& #[trigger] rounds_to(gain(p, new_stop) * quantity.units(), pow10(28), x)
                &&& rounds_to(15 * x, 10, p.first_tp_pnl(quantity, new_stop)->0.units())
            },
        new_stop.units() == p.entry_price.units() ==> p.first_tp_pnl(quantity, new_stop)->0.m == 0,
{
    law_unit_profit_by_value(p, new_stop);
    let a = p.pnl_per_unit(new_stop)->0;
    law_product_is_rounded(a, quantity);
    let b = product(a, quantity)->0;
    let f = config::first_tp_r();
    law_product_is_rounded(b, f);
    let t = pow10(27);
    lemma_pow10_positive(27);
    assert(pow10(28) == 10 * t);
    assert(f.units() == 15 * t);
    let x = b.units();
    assert(x * (15 * t) == (15 * x) * t) by (nonlinear_arith);
    let r = p.first_tp_pnl(quantity, new_stop)->0;
    lemma_rounds_scaled(x * (15 * t), 10, t, 15 * x, r.units());
    assert(rounds_to(gain(p, new_stop) * quantity.units(), pow10(28), x));
    crate::decimal::lemma_units_sign(a);
    if new_stop.units() == p.entry_price.units() {
        assert(a.m == 0);
        assert(0 * quantity.m == 0);
        assert(b.m == 0);
    }
}

/// What monitoring a simulated position does at a price: the first take profit leaves the rest of the
/// position with its stop at the entry, a trailing stop takes the place of the fixed orders, and where
/// nothing is due nothing changes.
pub proof fn law_monitoring_by_value(book: Positions, symbol: Seq<char>, price: Dec, now: Moment)
    requires
        book.dom().contains(symbol),
        monitored(book, symbol, price, now) is Some,
        monitored(book, symbol, price, now)->0 is Ok,
    ensures
        ({
            let p = book[symbol];
            let (after, action) = monitored(book, symbol, price, now)->0->Ok_0;
            let next = after[symbol];
            &&& p.evaluated(price) == Some(action)
            &&& action is Hold ==> after == book
            &&& action is Trail ==> {
                &&& next.state == TradeState::TrailingActive
                &&& next.trailing_stop_order_id is Some
                &&& next.stop_loss_order_id is None && next.take_profit_order_id is None
                &&& next.current_quantity == p.current_quantity
            }
            &&& action matches Management::FirstTp { quantity, new_stop_loss } ==> {
                &&& next.state == TradeState::FirstTpHit
                &&& next.current_stop_loss == p.entry_price
                &&& p.current_quantity.valid() && quantity.valid() && aligned_sum(
                    p.current_quantity,
                    quantity.negated(),
                ).valid() ==> next.current_quantity.units() == p.current_quantity.units()
                    - quantity.units()
                &&& next.original_quantity == p.original_quantity
                &&& next.take_profit == p.take_profit
            }
        }),
{
    let p = book[symbol];
    match p.evaluated(price) {
        Some(Management::FirstTp { quantity, new_stop_loss }) => {
            if p.current_quantity.valid() && quantity.valid() && aligned_sum(
                p.current_quantity,
                quantity.negated(),
            ).valid() {
                law_difference_is_exact(p.current_quantity, quantity);
            }
        },
        _ => {},
    }
}

/// What is recorded once the orders are done: the new order list's identifiers belong to the position
/// that took its first profit, a trailing stop's identifier to the one that trails, and a position that
/// was closed has nothing left. What was done already, or is not there, changes nothing.
pub proof fn law_records_by_value(
    book: Positions,
    symbol: Seq<char>,
    quantity: Dec,
    new_stop: Dec,
    placed: OcoOrderResult,
    order_id: u64,
    now: Moment,
)
    requires
        book.dom().contains(symbol),
    ensures
        first_tp_done(book, symbol, quantity, new_stop, Some(&placed)) matches Some(Ok(after)) ==> {
            &&& book[symbol].state != TradeState::Open ==> after == book
            &&& book[symbol].state == TradeState::Open ==> {
                &&& after[symbol].state == TradeState::FirstTpHit
                &&& after[symbol].oco_order_list_id == Some(placed.order_list_id)
                &&& after[symbol].stop_loss_order_id == Some(placed.stop_loss_order_id)
                &&& after[symbol].take_profit_order_id == Some(placed.take_profit_order_id)
                &&& after[symbol].current_stop_loss == book[symbol].entry_price
            }
        },
        trailing_done(book, symbol, order_id) matches Some(Ok(after)) && {
            &&& after[symbol].state == TradeState::TrailingActive
            &&& book[symbol].state != TradeState::TrailingActive
                ==> after[symbol].trailing_stop_order_id == Some(order_id)
            &&& book[symbol].state == TradeState::TrailingActive ==> after == book
        },
        close_done(book, symbol, now) matches Some(Ok(after)) ==> {
            &&& book[symbol].active() ==> after[symbol].state == TradeState::Closed
                && after[symbol].current_quantity.m == 0 && after[symbol].closed_at == Some(now)
            &&& !book[symbol].active() ==> after == book
        },
{
}

/// The positions that are listed are the active ones, all of them and in the order of their symbols'
/// coming: one more entry adds its position behind the others exactly where something is left of it.
pub proof fn law_active_positions_are_listed(
    entries: Seq<crate::symbol_map::Entry<ManagedPosition>>,
    n: nat,
    k: int,
)
    requires
        n <= entries.len(),
        0 <= k < n,
    ensures
        forall|i: int|
            0 <= i < active_models(entries, n).len() ==> (#[trigger] active_models(
                entries,
                n,
            )[i]).state != TradeState::Closed,
        entries[k].value@.state != TradeState::Closed && entries[k].value@.current_quantity.m > 0
            ==> active_models(entries, n).contains(entries[k].value@),
    decreases n,
{
    let before = active_models(entries, (n - 1) as nat);
    let all = active_models(entries, n);
    crate::decimal::lemma_units_sign(zero());
    crate::decimal::lemma_units_sign(entries[k].value@.current_quantity);
    if n > 1 {
        law_active_positions_are_listed(entries, (n - 1) as nat, if k < n - 1 {
            k
        } else {
            0
        });
    }
    let p = entries[k].value@;
    if k < n - 1 {
        if before.contains(p) {
            let i = choose|i: int| 0 <= i < before.len() && before[i] == p;
            assert(all[i] == p);
        }
    } else if p.active() {
        assert(all[before.len() as int] == p);
    }
}

/// The limits of the default configuration: three hundredths of a percent of funding and two tenths of
/// a percent of slippage.
pub proof fn law_default_limits()
    ensures
        10000 * config::funding_limit().units() == 3 * pow10(28),
        1000 * config::max_slippage().units() == 2 * pow10(28),
{
    lemma_pow10_add(4, 24);
    lemma_pow10_add(3, 25);
    reveal_with_fuel(pow10, 5);
    assert(pow10(4) == 10000 && pow10(3) == 1000);
    assert(config::funding_limit().units() == 3 * pow10(24));
    assert(config::max_slippage().units() == 2 * pow10(25));
}

/// Ten coins count as the largest, and no two are the same.
pub proof fn law_ten_largest_coins()
    ensures
        top_coins().len() == 10,
        top_coins()[0] == "BTCUSDT"@,
        top_coins()[1] == "ETHUSDT"@,
        top_coins()[2] == "BNBUSDT"@,
        top_coins()[3] == "XRPUSDT"@,
        top_coins()[4] == "ADAUSDT"@,
        top_coins()[5] == "SOLUSDT"@,
        top_coins()[6] == "DOGEUSDT"@,
        top_coins()[7] == "DOTUSDT"@,
        top_coins()[8] == "MATICUSDT"@,
        top_coins()[9] == "LTCUSDT"@,
{
}

/// A simulated fill is owed wherever its figures fit.
pub proof fn law_simulated_fill_is_owed(direction: Position, entry: Dec, stop: Dec, target: Dec)
    requires
        entry.valid(),
        stop.valid(),
        target.valid(),
        ({
            let at = match direction {
                Position::Long => product(entry, Dec { m: 1001, s: 3 }),
                Position::Short => product(entry, Dec { m: 999, s: 3 }),
                Position::Flat => Some(entry),
            };
            at is Some && fill_fits(entry, stop, target, at->0)
        }),
    ensures
        mock_prices(direction, entry, stop, target) is Some,
{
    let slip = config::mock_slippage();
    reveal_with_fuel(pow10, 4);
    assert(pow10(3) == 1000);
    assert(aligned_sum(whole(1), slip) == (Dec { m: 1001, s: 3 })) by {
        assert(1 * pow10(3) + 1 * pow10(0) == 1001);
    }
    assert(aligned_sum(whole(1), slip.negated()) == (Dec { m: 999, s: 3 })) by {
        assert(1 * pow10(3) + (-1) * pow10(0) == 999);
    }
    assert(sum(whole(1), slip) == Some(Dec { m: 1001, s: 3 }));
    assert(difference(whole(1), slip) == Some(Dec { m: 999, s: 3 }));
    law_difference_is_exact(entry, stop);
    law_difference_is_exact(target, entry);
    let at = match direction {
        Position::Long => product(entry, Dec { m: 1001, s: 3 })->0,
        Position::Short => product(entry, Dec { m: 999, s: 3 })->0,
        Position::Flat => entry,
    };
    let a = difference(entry, stop)->0;
    let b = difference(target, entry)->0;
    lemma_magnitude(a);
    lemma_magnitude(b);
    law_sum_is_exact(at, a.magnitude());
    law_difference_is_exact(at, a.magnitude());
    law_sum_is_exact(at, b.magnitude());
    law_difference_is_exact(at, b.magnitude());
}

/// The orders of a position are planned wherever its quantities can be rounded to the step and its prices
/// to the tick.
pub proof fn law_orders_are_owed(
    p: Managed,
    quantity: Dec,
    new_stop: Dec,
    offset: Dec,
    slippage: Dec,
    f: SymbolFilters,
)
    requires
        stepped(quantity, f.step_size@) is Some,
        stepped(p.current_quantity, f.step_size@) is Some,
        difference(p.current_quantity, quantity) is Some,
        stepped(difference(p.current_quantity, quantity)->0, f.step_size@) is Some,
        ticked(p.take_profit, f.tick_size@) is Some,
        ticked(new_stop, f.tick_size@) is Some,
        stop_limit(OrderSide::Sell, new_stop, slippage) is Some,
        stop_limit(OrderSide::Buy, new_stop, slippage) is Some,
        ticked(stop_limit(OrderSide::Sell, new_stop, slippage)->0, f.tick_size@) is Some,
        ticked(stop_limit(OrderSide::Buy, new_stop, slippage)->0, f.tick_size@) is Some,
        quotient(offset, p.entry_price) is Some,
        product(quotient(offset, p.entry_price)->0, whole(100)) is Some,
    ensures
        p.first_tp_steps(quantity, new_stop, slippage, f) is Some,
        p.closing_steps(f) is Some,
        p.trailing_steps(offset) is Some,
        opening_steps(p.direction, quantity, new_stop, p.take_profit, slippage, f) is Some,
{
}

/// What monitoring is owed: an answer wherever the evaluation is, and the figures of its action fit; a
/// symbol without a position is always answered.
pub proof fn law_monitoring_is_owed(book: Positions, symbol: Seq<char>, price: Dec, now: Moment)
    requires
        book.dom().contains(symbol) ==> {
            let p = book[symbol];
            &&& p.evaluated(price) is Some
            &&& p.evaluated(price)->0 matches Management::FirstTp { quantity, new_stop_loss } ==> {
                &&& p.first_tp_pnl(quantity, new_stop_loss) is Some
                &&& difference(p.current_quantity, quantity) is Some
                &&& sum(p.realized_pnl, p.first_tp_pnl(quantity, new_stop_loss)->0) is Some
            }
        },
    ensures
        monitored(book, symbol, price, now) is Some,
        book.dom().contains(symbol) ==> monitored(book, symbol, price, now)->0 is Ok,
        !book.dom().contains(symbol) ==> monitored(book, symbol, price, now)->0 is Err,
{
    if book.dom().contains(symbol) {
        lemma_nothing_closes_by_price(book[symbol], price);
    }
}

/// No price alone closes a managed position.
proof fn lemma_nothing_closes_by_price(p: Managed, price: Dec)
    ensures
        p.evaluated(price) is Some ==> !(p.evaluated(price)->0 is Close),
{
}

impl ExecutionEngine {
    /// A position is opened wherever its funding rate is not refused and its figures fit: simulated,
    /// those of the fill; on the exchange, its risk and its orders.
    pub proof fn law_opening_is_owed(
        &self,
        symbol: Seq<char>,
        direction: Position,
        entry: Dec,
        stop: Dec,
        target: Dec,
        quantity: Dec,
        atr: Dec,
        funding: Option<Dec>,
        now: Moment,
    )
        requires
            funding is Some ==> !self.refuses(funding->0),
            self.mock() ==> {
                let p = mock_prices(direction, entry, stop, target);
                p is Some && difference((p->0).0, (p->0).1) is Some
            },
            !self.mock() ==> difference(entry, stop) is Some && opening_steps(
                direction,
                quantity,
                stop,
                target,
                self.slippage(),
                self.filters()[symbol],
            ) is Some,
        ensures
            self.opening(symbol, direction, entry, stop, target, quantity, atr, funding, now) is Some,
            self.opening(symbol, direction, entry, stop, target, quantity, atr, funding, now)->0
                is Ok,
    {
    }
}

} // verus!
