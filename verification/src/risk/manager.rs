//! Risk manager: account equity, daily statistics and the circuit breaker.
use crate::decimal::{
    abs_int, aligned_sum, difference, law_difference_is_exact, law_product_is_exact,
    law_product_is_rounded, law_quotient_is_rounded, law_quotient_of_multiple, law_quotient_reaches,
    law_sum_is_exact, lemma_difference_valid, lemma_pow10_add, lemma_pow10_positive,
    lemma_units_sign, opt_view, pow10, product, product_of, quotient, rounds_to, sum, whole, zero,
    Balance, Dec, Decimal, Price,
};
use crate::risk::config;
use crate::risk::sizing::{
    answer, calculate_position_size, checked_position_size, held, law_exposure_is_capped,
    law_risk_is_capped, law_size_is_capped, law_sized_only_within_limits, RiskError, RiskFault,
    Sized, Sizing, SizingInput, SizingResult,
};
use crate::time::{opt_moment, Moment, Timestamp};
use vstd::prelude::*;

verus! {

/// Trade result for recording P&L.
#[derive(Clone, Debug)]
pub struct TradeResult {
    /// Symbol traded.
    pub symbol: String,
    /// Realized profit/loss.
    pub pnl: Balance,
    /// Trade close time.
    pub closed_at: Timestamp,
}

/// Daily trading statistics.
#[derive(Clone, Copy, Debug)]
pub struct DailyStats {
    /// Total realized P&L for the day.
    pub realized_pnl: Balance,
    /// Number of trades taken.
    pub trade_count: u32,
    /// Number of winning trades.
    pub wins: u32,
    /// Number of losing trades.
    pub losses: u32,
    /// Date these stats are for.
    pub date: Option<Timestamp>,
}

/// The model of daily statistics.
pub struct Stats {
    pub realized_pnl: Dec,
    pub trade_count: int,
    pub wins: int,
    pub losses: int,
    pub date: Option<Moment>,
}

impl View for DailyStats {
    type V = Stats;

    open spec fn view(&self) -> Stats {
        Stats {
            realized_pnl: self.realized_pnl@,
            trade_count: self.trade_count as int,
            wins: self.wins as int,
            losses: self.losses as int,
            date: opt_moment(self.date),
        }
    }
}

impl Stats {
    /// No count has reached its limit.
    pub open spec fn has_room(self) -> bool {
        self.trade_count < u32::MAX && self.wins < u32::MAX && self.losses < u32::MAX
    }

    /// The statistics after another trade, or nothing where the profit cannot be held.
    pub open spec fn recorded(self, pnl: Dec) -> Option<Stats> {
        match sum(self.realized_pnl, pnl) {
            Some(total) => Some(
                Stats {
                    realized_pnl: total,
                    trade_count: self.trade_count + 1,
                    wins: if pnl.units() > zero().units() {
                        self.wins + 1
                    } else {
                        self.wins
                    },
                    losses: if pnl.units() < zero().units() {
                        self.losses + 1
                    } else {
                        self.losses
                    },
                    date: self.date,
                },
            ),
            None => None,
        }
    }

    /// The share of winning trades; zero where there were no trades.
    pub open spec fn win_share(self) -> Option<Dec> {
        if self.trade_count == 0 {
            Some(zero())
        } else {
            quotient(whole(self.wins), whole(self.trade_count))
        }
    }

    /// Nothing recorded yet.
    pub open spec fn cleared(date: Option<Moment>) -> Stats {
        Stats { realized_pnl: zero(), trade_count: 0, wins: 0, losses: 0, date }
    }
}

impl Default for DailyStats {
    fn default() -> (r: DailyStats)
        ensures
            r@ == Stats::cleared(None),
    {
        DailyStats {
            realized_pnl: Decimal::zero(),
            trade_count: 0,
            wins: 0,
            losses: 0,
            date: None,
        }
    }
}

impl DailyStats {
    /// Records a trade result and updates statistics.
    pub fn record_trade(&mut self, result: &TradeResult)
        requires
            old(self)@.has_room(),
            sum(old(self)@.realized_pnl, result.pnl@) is Some,
        ensures
            Some(final(self)@) == old(self)@.recorded(result.pnl@),
    {
        self.realized_pnl = self.realized_pnl.checked_add(&result.pnl).unwrap();
        self.trade_count = self.trade_count + 1;
        if Decimal::zero().lt(&result.pnl) {
            self.wins = self.wins + 1;
        } else if result.pnl.lt(&Decimal::zero()) {
            self.losses = self.losses + 1;
        }
    }

    /// Returns win rate as a fraction (0.0 to 1.0).
    pub fn win_rate(&self) -> (r: Decimal)
        requires
            self@.win_share() is Some,
        ensures
            Some(r@) == self@.win_share(),
    {
        if self.trade_count == 0 {
            return Decimal::zero();
        }
        Decimal::from_u32(self.wins).checked_div(&Decimal::from_u32(self.trade_count)).unwrap()
    }

    /// [`DailyStats::win_rate`], or nothing where it cannot be held.
    pub fn checked_win_rate(&self) -> (r: Option<Decimal>)
        ensures
            opt_view(r) == self@.win_share(),
    {
        if self.trade_count != 0 && Decimal::from_u32(self.wins).checked_div(
            &Decimal::from_u32(self.trade_count),
        ).is_none() {
            return None;
        }
        Some(self.win_rate())
    }

    /// Resets statistics for a new day.
    pub fn reset(&mut self, date: Timestamp)
        ensures
            final(self)@ == Stats::cleared(Some(date@)),
    {
        self.realized_pnl = Decimal::zero();
        self.trade_count = 0;
        self.wins = 0;
        self.losses = 0;
        self.date = Some(date);
    }
}

/// Risk manager for enforcing position sizing and circuit breaker rules.
#[derive(Clone, Copy, Debug)]
pub struct RiskManager {
    starting_equity: Balance,
    current_equity: Balance,
    daily_stats: DailyStats,
    circuit_breaker_active: bool,
    circuit_breaker_triggered_at: Option<Timestamp>,
}

/// The model of a risk manager.
pub struct Account {
    pub starting_equity: Dec,
    pub current_equity: Dec,
    pub stats: Stats,
    /// Trading is halted.
    pub halted: bool,
    pub halted_at: Option<Moment>,
}

impl View for RiskManager {
    type V = Account;

    closed spec fn view(&self) -> Account {
        Account {
            starting_equity: self.starting_equity@,
            current_equity: self.current_equity@,
            stats: self.daily_stats@,
            halted: self.circuit_breaker_active,
            halted_at: opt_moment(self.circuit_breaker_triggered_at),
        }
    }
}

impl Account {
    /// The share of the starting equity that was lost today; zero where nothing was lost.
    pub open spec fn loss_share(self) -> Option<Dec> {
        if self.starting_equity.m == 0 {
            Some(zero())
        } else {
            match difference(self.starting_equity, self.current_equity) {
                Some(loss) => if loss.units() <= zero().units() {
                    Some(zero())
                } else {
                    quotient(loss, self.starting_equity)
                },
                None => None,
            }
        }
    }

    /// The account after its loss was held against the daily limit at `now`.
    pub open spec fn checked(self, now: Moment) -> Option<Account> {
        if self.halted {
            Some(self)
        } else {
            match self.loss_share() {
                Some(share) => if share.units() >= config::loss_limit().units() {
                    Some(Account { halted: true, halted_at: Some(now), ..self })
                } else {
                    Some(self)
                },
                None => None,
            }
        }
    }

    /// The figures that recording a trade takes can be held.
    pub open spec fn trade_defined(self, pnl: Dec) -> bool {
        match (sum(self.current_equity, pnl), self.stats.recorded(pnl)) {
            (Some(current_equity), Some(_)) => self.equity_defined(current_equity),
            _ => false,
        }
    }

    /// The figures that another equity takes can be held.
    pub open spec fn equity_defined(self, equity: Dec) -> bool {
        self.halted || (Account { current_equity: equity, ..self }).loss_share() is Some
    }

    /// The account with another equity.
    pub open spec fn with_equity(self, equity: Dec, now: Moment) -> Option<Account> {
        (Account { current_equity: equity, ..self }).checked(now)
    }

    /// The account after a trade, or nothing where a figure cannot be held.
    pub open spec fn after_trade(self, pnl: Dec, now: Moment) -> Option<Account> {
        match (sum(self.current_equity, pnl), self.stats.recorded(pnl)) {
            (Some(current_equity), Some(stats)) => (Account {
                current_equity,
                stats,
                ..self
            }).checked(now),
            _ => None,
        }
    }

    /// The account on a new day: it starts with the current equity, cleared statistics and no halt.
    pub open spec fn new_day(self, date: Option<Moment>) -> Account {
        Account {
            starting_equity: self.current_equity,
            current_equity: self.current_equity,
            stats: Stats::cleared(date),
            halted: false,
            halted_at: None,
        }
    }

    /// The halt has lasted its time.
    pub open spec fn halt_over(self, now: Moment) -> bool {
        self.halted && self.halted_at is Some && now.nanos_since(self.halted_at->0)
            >= config::HALT_HOURS * 3600000000000
    }

    /// The account at `now`: a halt that has lasted its time ends with a new day.
    pub open spec fn at(self, now: Moment) -> Account {
        if self.halt_over(now) {
            self.new_day(Some(now))
        } else {
            self
        }
    }

    /// The answer to a sizing request: a halted account refuses every one.
    pub open spec fn sizing(
        self,
        entry: Dec,
        stop: Dec,
        atr_15m: Dec,
        atr_4h: Dec,
        market_cap: Option<Dec>,
    ) -> Option<Result<Sized, RiskFault>> {
        if self.halted {
            match (
                product_of(self.loss_share(), Some(whole(100))),
                product(config::loss_limit(), whole(100)),
            ) {
                (Some(daily_loss_pct), Some(limit)) => Some(
                    Err(RiskFault::CircuitBreakerTriggered { daily_loss_pct, limit }),
                ),
                _ => None,
            }
        } else {
            (Sizing {
                equity: self.current_equity,
                entry_price: entry,
                stop_loss: stop,
                atr_15m,
                atr_4h,
                market_cap,
            }).outcome()
        }
    }
}

/// A halted account gives no position, whatever is asked.
pub proof fn law_halted_account_refuses(
    a: Account,
    entry: Dec,
    stop: Dec,
    atr_15m: Dec,
    atr_4h: Dec,
    market_cap: Option<Dec>,
)
    requires
        a.halted,
    ensures
        a.sizing(entry, stop, atr_15m, atr_4h, market_cap) is Some ==> a.sizing(
            entry,
            stop,
            atr_15m,
            atr_4h,
            market_cap,
        )->0 is Err,
{
}

/// Once trading is halted, neither a trade nor another equity takes the halt away, and the moment
/// of the halt stays.
pub proof fn law_halt_stays(a: Account, pnl: Dec, equity: Dec, now: Moment)
    requires
        a.halted,
    ensures
        a.after_trade(pnl, now) is Some ==> a.after_trade(pnl, now)->0.halted && a.after_trade(
            pnl,
            now,
        )->0.halted_at == a.halted_at,
        a.with_equity(equity, now) is Some && a.with_equity(equity, now)->0.halted,
{
}

/// A halt lasts twenty-four hours: until then the account stays as it is, and refuses; after them
/// it is lifted.
pub proof fn law_halt_lasts_a_day(a: Account, start: Moment, now: Moment)
    requires
        a.halted,
        a.halted_at == Some(start),
    ensures
        now.nanos_since(start) < 24 * 3600 * 1000000000 ==> a.at(now) == a && a.at(now).halted,
        now.nanos_since(start) >= 24 * 3600 * 1000000000 ==> !a.at(now).halted,
{
}

/// A loss that reaches the daily limit halts trading.
pub proof fn law_loss_limit_halts(a: Account, pnl: Dec, now: Moment)
    requires
        a.after_trade(pnl, now) is Some,
        a.after_trade(pnl, now)->0.loss_share() is Some,
        a.after_trade(pnl, now)->0.loss_share()->0.units() >= config::loss_limit().units(),
    ensures
        a.after_trade(pnl, now)->0.halted,
{
}

/// The equity is what the day started with and what the day's trades have made since.
pub open spec fn balanced(a: Account) -> bool {
    a.current_equity.units() == a.starting_equity.units() + a.stats.realized_pnl.units()
}

/// Recording a trade keeps the account balanced, wherever the sums fit as they are.
pub proof fn law_trades_keep_the_balance(a: Account, pnl: Dec, now: Moment)
    requires
        balanced(a),
        a.after_trade(pnl, now) is Some,
        a.current_equity.valid(),
        a.stats.realized_pnl.valid(),
        pnl.valid(),
        aligned_sum(a.current_equity, pnl).valid(),
        aligned_sum(a.stats.realized_pnl, pnl).valid(),
    ensures
        balanced(a.after_trade(pnl, now)->0),
        a.after_trade(pnl, now)->0.stats.trade_count == a.stats.trade_count + 1,
{
    law_sum_is_exact(a.current_equity, pnl);
    law_sum_is_exact(a.stats.realized_pnl, pnl);
}

impl RiskManager {
    /// Creates a new risk manager with the given starting equity.
    pub fn new(starting_equity: Balance) -> (r: RiskManager)
        ensures
            r@ == (Account {
                starting_equity: starting_equity@,
                current_equity: starting_equity@,
                stats: Stats::cleared(None),
                halted: false,
                halted_at: None,
            }),
    {
        RiskManager {
            starting_equity,
            current_equity: starting_equity,
            daily_stats: DailyStats::default(),
            circuit_breaker_active: false,
            circuit_breaker_triggered_at: None,
        }
    }

    /// Returns current account equity.
    pub fn current_equity(&self) -> (r: Balance)
        ensures
            r@ == self@.current_equity,
    {
        self.current_equity
    }

    /// Returns starting equity for the day.
    pub fn starting_equity(&self) -> (r: Balance)
        ensures
            r@ == self@.starting_equity,
    {
        self.starting_equity
    }

    /// Returns daily statistics.
    pub fn daily_stats(&self) -> (r: &DailyStats)
        ensures
            r@ == self@.stats,
    {
        &self.daily_stats
    }

    /// Returns true if circuit breaker is active.
    pub fn is_trading_halted(&self) -> (r: bool)
        ensures
            r == self@.halted,
    {
        self.circuit_breaker_active
    }

    fn loss_share_of(&self) -> (r: Option<Decimal>)
        ensures
            opt_view(r) == self@.loss_share(),
    {
        if self.starting_equity.is_zero() {
            return Some(Decimal::zero());
        }
        let loss = self.starting_equity.checked_sub(&self.current_equity)?;
        if loss.le(&Decimal::zero()) {
            Some(Decimal::zero())
        } else {
            loss.checked_div(&self.starting_equity)
        }
    }

    /// Returns the daily loss as a fraction of the starting equity.
    pub fn daily_loss_percentage(&self) -> (r: Decimal)
        requires
            self@.loss_share() is Some,
        ensures
            Some(r@) == self@.loss_share(),
    {
        self.loss_share_of().unwrap()
    }

    /// [`RiskManager::daily_loss_percentage`], or nothing where it cannot be held.
    pub fn checked_daily_loss(&self) -> (r: Option<Decimal>)
        ensures
            opt_view(r) == self@.loss_share(),
    {
        if self.loss_share_of().is_some() {
            Some(self.daily_loss_percentage())
        } else {
            None
        }
    }

    /// Calculates position size for a trade, enforcing all risk constraints.
    ///
    /// # Errors
    /// - `CircuitBreakerTriggered` if trading is halted
    /// - `VolatilityTooHigh` if ATR ratio > 3.0
    /// - `InvalidStopLoss` or `InvalidEquity` for input validation
    pub fn calculate_position_size(
        &self,
        entry_price: Price,
        stop_loss: Price,
        atr_15m: Decimal,
        atr_4h: Decimal,
        market_cap: Option<Decimal>,
    ) -> (r: Result<SizingResult, RiskError>)
        requires
            self@.sizing(entry_price@, stop_loss@, atr_15m@, atr_4h@, opt_view(market_cap)) is Some,
        ensures
            Some(answer(r)) == self@.sizing(
                entry_price@,
                stop_loss@,
                atr_15m@,
                atr_4h@,
                opt_view(market_cap),
            ),
    {
        if self.circuit_breaker_active {
            let hundred = Decimal::from_u32(100);
            let daily_loss_pct = self.daily_loss_percentage().checked_mul(&hundred).unwrap();
            let limit = config::daily_loss_limit().checked_mul(&hundred).unwrap();
            return Err(RiskError::CircuitBreakerTriggered { daily_loss_pct, limit });
        }
        let input = SizingInput {
            equity: self.current_equity,
            entry_price,
            stop_loss,
            atr_15m,
            atr_4h,
            market_cap,
        };
        calculate_position_size(&input)
    }

    /// [`RiskManager::calculate_position_size`], or nothing where a figure cannot be held.
    pub fn checked_position_size(
        &self,
        entry_price: Price,
        stop_loss: Price,
        atr_15m: Decimal,
        atr_4h: Decimal,
        market_cap: Option<Decimal>,
    ) -> (r: Option<Result<SizingResult, RiskError>>)
        ensures
            match self@.sizing(
                entry_price@,
                stop_loss@,
                atr_15m@,
                atr_4h@,
                opt_view(market_cap),
            ) {
                Some(a) => r is Some && answer(r->0) == a,
                None => r is None,
            },
    {
        if self.circuit_breaker_active {
            let hundred = Decimal::from_u32(100);
            let share = self.loss_share_of()?;
            if share.checked_mul(&hundred).is_none() || config::daily_loss_limit().checked_mul(
                &hundred,
            ).is_none() {
                return None;
            }
        } else {
            let input = SizingInput {
                equity: self.current_equity,
                entry_price,
                stop_loss,
                atr_15m,
                atr_4h,
                market_cap,
            };
            if checked_position_size(&input).is_none() {
                return None;
            }
        }
        Some(
            self.calculate_position_size(entry_price, stop_loss, atr_15m, atr_4h, market_cap),
        )
    }

    /// Records a trade result at `now` and updates equity and statistics.
    ///
    /// Triggers circuit breaker if the daily loss limit is reached.
    pub fn record_trade_result_at(&mut self, result: TradeResult, now: Timestamp)
        requires
            old(self)@.stats.has_room(),
            old(self)@.trade_defined(result.pnl@),
        ensures
            Some(final(self)@) == old(self)@.after_trade(result.pnl@, now@),
    {
        self.current_equity = self.current_equity.checked_add(&result.pnl).unwrap();
        self.daily_stats.record_trade(&result);
        self.check_circuit_breaker(now);
    }

    /// Records a trade result and updates equity and statistics.
    ///
    /// Triggers circuit breaker if the daily loss limit is reached.
    pub fn record_trade_result(&mut self, result: TradeResult)
        requires
            old(self)@.stats.has_room(),
            old(self)@.trade_defined(result.pnl@),
        ensures
            exists|now: Moment|
                now.valid() && Some(final(self)@) == #[trigger] old(self)@.after_trade(
                    result.pnl@,
                    now,
                ),
    {
        let now = Timestamp::now();
        self.record_trade_result_at(result, now);
    }

    /// [`RiskManager::record_trade_result`], or `false` and no change where a figure cannot be
    /// held or a count is at its limit.
    pub fn checked_record_trade_result(&mut self, result: TradeResult) -> (r: bool)
        ensures
            r == (old(self)@.stats.has_room() && old(self)@.trade_defined(result.pnl@)),
            !r ==> *final(self) == *old(self),
            r ==> exists|now: Moment|
                now.valid() && Some(final(self)@) == #[trigger] old(self)@.after_trade(
                    result.pnl@,
                    now,
                ),
    {
        if self.daily_stats.trade_count == u32::MAX || self.daily_stats.wins == u32::MAX
            || self.daily_stats.losses == u32::MAX {
            return false;
        }
        let equity = match self.current_equity.checked_add(&result.pnl) {
            Some(e) => e,
            None => {
                return false;
            },
        };
        if self.daily_stats.realized_pnl.checked_add(&result.pnl).is_none() {
            return false;
        }
        if !self.circuit_breaker_active {
            let probe = RiskManager { current_equity: equity, ..*self };
            if probe.loss_share_of().is_none() {
                return false;
            }
        }
        self.record_trade_result(result);
        true
    }

    /// Updates current equity (e.g., from external source), at `now`.
    pub fn update_equity_at(&mut self, equity: Balance, now: Timestamp)
        requires
            old(self)@.equity_defined(equity@),
        ensures
            Some(final(self)@) == old(self)@.with_equity(equity@, now@),
    {
        self.current_equity = equity;
        self.check_circuit_breaker(now);
    }

    /// Updates current equity (e.g., from external source).
    pub fn update_equity(&mut self, equity: Balance)
        requires
            old(self)@.equity_defined(equity@),
        ensures
            exists|now: Moment|
                now.valid() && Some(final(self)@) == #[trigger] old(self)@.with_equity(
                    equity@,
                    now,
                ),
    {
        let now = Timestamp::now();
        self.update_equity_at(equity, now);
    }

    /// [`RiskManager::update_equity`], or `false` and no change where the loss cannot be held.
    pub fn checked_update_equity(&mut self, equity: Balance) -> (r: bool)
        ensures
            r == old(self)@.equity_defined(equity@),
            !r ==> *final(self) == *old(self),
            r ==> exists|now: Moment|
                now.valid() && Some(final(self)@) == #[trigger] old(self)@.with_equity(
                    equity@,
                    now,
                ),
    {
        if !self.circuit_breaker_active {
            let probe = RiskManager { current_equity: equity, ..*self };
            if probe.loss_share_of().is_none() {
                return false;
            }
        }
        self.update_equity(equity);
        true
    }

    /// Halts trading if the daily loss limit is reached.
    fn check_circuit_breaker(&mut self, now: Timestamp)
        requires
            old(self)@.checked(now@) is Some,
        ensures
            Some(final(self)@) == old(self)@.checked(now@),
    {
        if self.circuit_breaker_active {
            return;
        }
        let loss_pct = self.daily_loss_percentage();
        if config::daily_loss_limit().le(&loss_pct) {
            self.circuit_breaker_active = true;
            self.circuit_breaker_triggered_at = Some(now);
        }
    }

    /// Resets for a new trading day: the halt is lifted, the day starts with the current equity,
    /// and the statistics are cleared.
    pub fn reset_daily(&mut self)
        ensures
            final(self)@.stats.date is Some,
            final(self)@ == old(self)@.new_day(final(self)@.stats.date),
    {
        let now = Timestamp::now();
        self.reset_daily_at(now);
    }

    /// Resets for a new trading day that starts at `now`.
    pub fn reset_daily_at(&mut self, now: Timestamp)
        ensures
            final(self)@ == old(self)@.new_day(Some(now@)),
    {
        self.starting_equity = self.current_equity;
        self.circuit_breaker_active = false;
        self.circuit_breaker_triggered_at = None;
        self.daily_stats.reset(now);
    }

    /// Starts a new day if trading has been halted for twenty-four hours at `now`.
    pub fn lift_expired_halt(&mut self, now: Timestamp)
        ensures
            final(self)@ == old(self)@.at(now@),
    {
        if !self.circuit_breaker_active {
            return;
        }
        match self.circuit_breaker_triggered_at {
            Some(start) => {
                let halt: i128 = config::HALT_HOURS as i128 * 3600000000000;
                if now.nanos_since(&start) >= halt {
                    self.reset_daily_at(now);
                }
            },
            None => {},
        }
    }

    /// Manually triggers the circuit breaker.
    pub fn trigger_circuit_breaker(&mut self)
        ensures
            final(self)@.halted_at is Some,
            final(self)@ == (Account {
                halted: true,
                halted_at: final(self)@.halted_at,
                ..old(self)@
            }),
    {
        self.circuit_breaker_active = true;
        let now = Timestamp::now();
        self.circuit_breaker_triggered_at = Some(now);
    }

    /// Manually resets the circuit breaker (use with caution).
    pub fn reset_circuit_breaker(&mut self)
        ensures
            final(self)@ == (Account { halted: false, halted_at: None, ..old(self)@ }),
    {
        self.circuit_breaker_active = false;
        self.circuit_breaker_triggered_at = None;
    }

    /// Returns the maximum position value allowed based on current equity.
    pub fn max_position_value(&self) -> (r: Balance)
        requires
            product(self@.current_equity, config::max_position_share()) is Some,
        ensures
            Some(r@) == product(self@.current_equity, config::max_position_share()),
            rounds_to(5 * self@.current_equity.units() * pow10(28), pow10(28), r@.units()),
    {
        proof {
            let e = self@.current_equity.units();
            assert(config::max_position_share().units() == 50 * pow10(27));
            assert(pow10(28) == 10 * pow10(27));
            assert(e * (5 * pow10(28)) == 5 * e * pow10(28)) by (nonlinear_arith);
            if self@.current_equity.valid() {
                law_product_is_rounded(self@.current_equity, config::max_position_share());
            }
        }
        self.current_equity.checked_mul(&config::max_position_equity_pct()).unwrap()
    }

    /// [`RiskManager::max_position_value`], or nothing where it cannot be held.
    pub fn checked_max_position_value(&self) -> (r: Option<Balance>)
        ensures
            opt_view(r) == product(self@.current_equity, config::max_position_share()),
    {
        if self.current_equity.checked_mul(&config::max_position_equity_pct()).is_some() {
            Some(self.max_position_value())
        } else {
            None
        }
    }

    /// Returns the risk amount per trade based on current equity.
    pub fn risk_per_trade(&self) -> (r: Balance)
        requires
            product(self@.current_equity, config::risk_share()) is Some,
        ensures
            Some(r@) == product(self@.current_equity, config::risk_share()),
            rounds_to(50 * self@.current_equity.units() * pow10(25), pow10(28), r@.units()),
    {
        proof {
            let e = self@.current_equity.units();
            assert(config::risk_share().units() == 50 * pow10(25));
            assert(e * (50 * pow10(25)) == 50 * e * pow10(25)) by (nonlinear_arith);
            if self@.current_equity.valid() {
                law_product_is_rounded(self@.current_equity, config::risk_share());
            }
        }
        self.current_equity.checked_mul(&config::risk_per_trade()).unwrap()
    }

    /// [`RiskManager::risk_per_trade`], or nothing where it cannot be held.
    pub fn checked_risk_per_trade(&self) -> (r: Option<Balance>)
        ensures
            opt_view(r) == product(self@.current_equity, config::risk_share()),
    {
        if self.current_equity.checked_mul(&config::risk_per_trade()).is_some() {
            Some(self.risk_per_trade())
        } else {
            None
        }
    }
}

/// An account that is not halted sizes by its current equity: the amount at risk is a twentieth of
/// it, the position at its stop loses no more than that amount and is worth no more than five times
/// the current equity, each up to a rounding.
pub proof fn law_sizing_goes_by_current_equity(
    a: Account,
    entry: Dec,
    stop: Dec,
    atr_15m: Dec,
    atr_4h: Dec,
    market_cap: Option<Dec>,
    s: Sized,
)
    requires
        !a.halted,
        a.sizing(entry, stop, atr_15m, atr_4h, market_cap) == Some(Ok::<Sized, RiskFault>(s)),
        a.current_equity.valid(),
        entry.valid(),
        stop.valid(),
        entry.units() > 0,
    ensures
        a.current_equity.units() > 0,
        rounds_to(a.current_equity.units(), 20, s.risk_amount.units()),
        (Dec { m: a.current_equity.m * 50, s: a.current_equity.s + 3 }).valid() ==> 20
            * s.risk_amount.units() == a.current_equity.units(),
        (Dec { m: a.current_equity.m * 50, s: a.current_equity.s + 1 }).valid() ==> (s.size.units()
            * entry.units() - 5 * a.current_equity.units() * pow10(28)) * pow10(27) <= entry.units()
            * (pow10(27) + s.size.units()),
        aligned_sum(entry, stop.negated()).valid() ==> (s.size.units() * abs_int(
            entry.units() - stop.units(),
        ) - s.risk_amount.units() * pow10(28)) * pow10(27) <= abs_int(entry.units() - stop.units())
            * (pow10(27) + s.base_size.units()),
{
    let i = Sizing {
        equity: a.current_equity,
        entry_price: entry,
        stop_loss: stop,
        atr_15m,
        atr_4h,
        market_cap,
    };
    law_sized_only_within_limits(i, s);
    lemma_units_sign(zero());
    law_risk_is_capped(i, s);
    law_exposure_is_capped(i, s);
    let t = pow10(27);
    let p = pow10(28);
    lemma_pow10_positive(27);
    lemma_pow10_positive(25);
    assert(p == 10 * t);
    let x = config::risk_share().units();
    let u = a.current_equity.units();
    let q = s.risk_amount.units();
    assert(20 * x == p);
    assert(rounds_to(u, 20, q)) by {
        let e = q * p - u * x;
        let f = q * 20 - u;
        assert(e == f * x) by (nonlinear_arith)
            requires
                e == q * p - u * x,
                f == q * 20 - u,
                p == 20 * x,
        ;
        assert(x >= 1);
        assert(abs_int(e) == abs_int(f) * x) by (nonlinear_arith)
            requires
                e == f * x,
                x >= 1,
        ;
        let g = abs_int(q);
        let y = abs_int(f) * t;
        let z = 20 * (t + g);
        assert(y <= z) by (nonlinear_arith)
            requires
                abs_int(f) * x * t <= (20 * x) * (t + g),
                y == abs_int(f) * t,
                z == 20 * (t + g),
                x >= 1,
        ;
        assert(u * x > 0) by (nonlinear_arith)
            requires
                u > 0,
                x >= 1,
        ;
    }
    if (Dec { m: a.current_equity.m * 50, s: a.current_equity.s + 3 }).valid() {
        law_product_is_exact(a.current_equity, config::risk_share());
        assert(20 * q == u) by (nonlinear_arith)
            requires
                q * p == u * x,
                p == 20 * x,
                x >= 1,
        ;
    }
    if (Dec { m: a.current_equity.m * 50, s: a.current_equity.s + 1 }).valid() {
        law_product_is_exact(a.current_equity, config::max_position_share());
        let m = product(a.current_equity, config::max_position_share())->0;
        assert(m.units() == 5 * u) by (nonlinear_arith)
            requires
                m.units() * p == u * (5 * p),
                p >= 1,
        ;
        law_product_is_rounded(a.current_equity, config::max_position_share());
        lemma_size_within_worth(i, s, m);
    }
    if aligned_sum(entry, stop.negated()).valid() {
        law_difference_is_exact(entry, stop);
        let d = difference(entry, stop)->0;
        let w = pow10((28 - d.s) as nat);
        lemma_pow10_positive((28 - d.s) as nat);
        let k = d.m;
        assert(abs_int(k) * w == abs_int(k * w)) by (nonlinear_arith)
            requires
                w >= 1,
        ;
    }
}

/// The size times the entry is at most the worth that is allowed, up to the rounding of the size.
proof fn lemma_size_within_worth(i: Sizing, s: Sized, m: Dec)
    requires
        i.outcome() == Some(Ok::<Sized, RiskFault>(s)),
        held(i),
        i.entry_price.units() > 0,
        product(i.equity, config::max_position_share()) == Some(m),
        m.valid(),
        m.units() >= 0,
    ensures
        (s.size.units() * i.entry_price.units() - m.units() * pow10(28)) * pow10(27)
            <= i.entry_price.units() * (pow10(27) + s.size.units()),
{
    law_size_is_capped(i, s);
    law_exposure_is_capped(i, s);
    law_quotient_is_rounded(m, i.entry_price);
    let t = pow10(27);
    lemma_pow10_positive(27);
    lemma_pow10_positive(28);
    let x = s.size.units();
    let y = i.max_size()->0.units();
    let d = i.entry_price.units();
    let n = m.units() * pow10(28);
    assert(n >= 0) by (nonlinear_arith)
        requires
            n == m.units() * pow10(28),
            m.units() >= 0,
            pow10(28) >= 1,
    ;
    assert(y >= 0);
    let e = y * d - n;
    assert(e * t <= d * (t + y)) by (nonlinear_arith)
        requires
            abs_int(e) * t <= d * (t + y),
            t >= 1,
    ;
    let g = y - x;
    assert(x * d - n == e - g * d) by (nonlinear_arith)
        requires
            e == y * d - n,
            g == y - x,
    ;
    assert((e - g * d) * t <= d * (t + x)) by (nonlinear_arith)
        requires
            e * t <= d * (t + y),
            g == y - x,
            g >= 0,
            d > 0,
            t >= 1,
    ;
}

/// What the day started with is of no account for a size: two accounts with the same current equity
/// that are not halted are answered the same.
pub proof fn law_sizing_ignores_the_start(
    a: Account,
    b: Account,
    entry: Dec,
    stop: Dec,
    atr_15m: Dec,
    atr_4h: Dec,
    market_cap: Option<Dec>,
)
    requires
        !a.halted,
        !b.halted,
        a.current_equity == b.current_equity,
    ensures
        a.sizing(entry, stop, atr_15m, atr_4h, market_cap) == b.sizing(
            entry,
            stop,
            atr_15m,
            atr_4h,
            market_cap,
        ),
{
}

/// What a halted account answers: the loss in percent of what the day started with, and the limit of
/// two and a half percent.
pub proof fn law_halted_answer_by_value(
    a: Account,
    entry: Dec,
    stop: Dec,
    atr_15m: Dec,
    atr_4h: Dec,
    market_cap: Option<Dec>,
)
    requires
        a.halted,
        a.sizing(entry, stop, atr_15m, atr_4h, market_cap) is Some,
        a.loss_share()->0.valid(),
    ensures
        a.sizing(entry, stop, atr_15m, atr_4h, market_cap)->0 matches Err(
            RiskFault::CircuitBreakerTriggered { daily_loss_pct, limit },
        ) && {
            &&& 2 * limit.units() == 5 * pow10(28)
            &&& rounds_to(
                100 * a.loss_share()->0.units() * pow10(28),
                pow10(28),
                daily_loss_pct.units(),
            )
        },
{
    let hundred = whole(100);
    let p = pow10(28);
    lemma_pow10_positive(25);
    assert(hundred.units() == 100 * p);
    let l = config::loss_limit();
    law_product_is_exact(l, hundred);
    let q = product(l, hundred)->0;
    lemma_pow10_add(3, 25);
    reveal_with_fuel(pow10, 4);
    let w = pow10(25);
    assert(p == 1000 * w);
    assert(l.units() == 25 * w);
    assert(2 * q.units() == 5 * p) by (nonlinear_arith)
        requires
            q.units() * p == (25 * w) * (100 * p),
            p == 1000 * w,
            w >= 1,
    ;
    let share = a.loss_share()->0;
    law_product_is_rounded(share, hundred);
    assert(share.units() * (100 * p) == 100 * share.units() * p) by (nonlinear_arith);
}

/// The daily loss by value: nothing while the equity has not fallen below what the day started with,
/// otherwise what is missing, divided by what the day started with, up to a rounding.
pub proof fn law_daily_loss_by_value(a: Account)
    requires
        a.starting_equity.valid(),
        a.current_equity.valid(),
        a.starting_equity.units() > 0,
        aligned_sum(a.starting_equity, a.current_equity.negated()).valid(),
        a.loss_share() is Some,
    ensures
        a.loss_share()->0.valid(),
        a.current_equity.units() >= a.starting_equity.units() ==> a.loss_share()->0.units() == 0,
        a.current_equity.units() < a.starting_equity.units() ==> rounds_to(
            (a.starting_equity.units() - a.current_equity.units()) * pow10(28),
            a.starting_equity.units(),
            a.loss_share()->0.units(),
        ),
{
    law_difference_is_exact(a.starting_equity, a.current_equity);
    lemma_difference_valid(a.starting_equity, a.current_equity);
    lemma_units_sign(a.starting_equity);
    lemma_units_sign(zero());
    let loss = difference(a.starting_equity, a.current_equity)->0;
    if loss.units() > 0 {
        law_quotient_is_rounded(loss, a.starting_equity);
    }
}

/// Trading is halted by a loss of two and a half percent of what the day started with, and not by
/// less, but for a rounding in the 26th place: after an equity of 97.5 percent or less every further
/// size is refused, and above that the account goes on as it was.
pub proof fn law_halts_at_two_and_a_half_percent(a: Account, equity: Dec, now: Moment)
    requires
        !a.halted,
        a.starting_equity.valid(),
        equity.valid(),
        a.starting_equity.units() > 0,
        aligned_sum(a.starting_equity, equity.negated()).valid(),
        a.with_equity(equity, now) is Some,
    ensures
        ({
            let after = a.with_equity(equity, now)->0;
            let lost = a.starting_equity.units() - equity.units();
            &&& after.current_equity == equity
            &&& after.starting_equity == a.starting_equity
            &&& after.stats == a.stats
            &&& 1000 * lost == 25 * a.starting_equity.units() ==> after.halted && after.halted_at
                == Some(now)
            &&& lost * pow10(28) >= a.starting_equity.units() * (25 * pow10(25) + 102)
                ==> after.halted && after.halted_at == Some(now)
            &&& lost * pow10(28) < a.starting_equity.units() * (25 * pow10(25) - 102)
                ==> !after.halted && after.halted_at == a.halted_at
        }),
{
    let b = Account { current_equity: equity, ..a };
    let loss = difference(a.starting_equity, equity)->0;
    law_difference_is_exact(a.starting_equity, equity);
    lemma_difference_valid(a.starting_equity, equity);
    lemma_units_sign(a.starting_equity);
    lemma_units_sign(zero());
    let w = pow10(25);
    lemma_pow10_positive(25);
    lemma_pow10_add(3, 25);
    lemma_pow10_add(1, 28);
    reveal_with_fuel(pow10, 4);
    assert(pow10(28) == 1000 * w);
    assert(pow10(29) == 10 * pow10(28));
    assert(config::loss_limit().units() == 25 * w);
    let u = a.starting_equity.units();
    let lost = u - equity.units();
    assert(loss.units() == lost);
    assert(w >= 1000) by {
        lemma_pow10_add(3, 22);
        lemma_pow10_positive(22);
    }
    if lost > 0 {
        law_quotient_reaches(loss, a.starting_equity, 25 * w);
        if 1000 * lost == 25 * u {
            let h = pow10(8);
            lemma_pow10_add(3, 5);
            let g = pow10(5);
            assert(pow10(5) == 100000) by {
                reveal_with_fuel(pow10, 6);
            }
            assert(h == 100000000);
            assert(loss.units() * h == 2500000 * u) by (nonlinear_arith)
                requires
                    1000 * loss.units() == 25 * u,
                    h == 100000000,
            ;
            law_quotient_of_multiple(loss, a.starting_equity, 2500000);
            lemma_pow10_add(5, 20);
            assert(2500000 * pow10(20) == 25 * w);
        }
    } else {
        assert(lost * pow10(28) <= 0) by (nonlinear_arith)
            requires
                lost <= 0,
                pow10(28) >= 1,
        ;
        assert(u * (25 * w + 102) > 0) by (nonlinear_arith)
            requires
                u > 0,
                w >= 1000,
        ;
        assert(u * (25 * w - 102) > 0) by (nonlinear_arith)
            requires
                u > 0,
                w >= 1000,
        ;
        assert(b.loss_share() == Some(zero()));
        assert(config::loss_limit().units() > 0);
    }
}

/// Recording a trade is the same as taking the equity that it leaves, with the trade counted: once as
/// a trade, and as a win where it made money, a loss where it lost some, and neither where it did
/// not; its profit is added to the day's.
pub proof fn law_trades_are_counted(a: Account, pnl: Dec, now: Moment)
    requires
        a.after_trade(pnl, now) is Some,
        a.current_equity.valid(),
        a.stats.realized_pnl.valid(),
        pnl.valid(),
        aligned_sum(a.current_equity, pnl).valid(),
        aligned_sum(a.stats.realized_pnl, pnl).valid(),
    ensures
        ({
            let after = a.after_trade(pnl, now)->0;
            &&& after.current_equity.units() == a.current_equity.units() + pnl.units()
            &&& after.starting_equity == a.starting_equity
            &&& after.stats.realized_pnl.units() == a.stats.realized_pnl.units() + pnl.units()
            &&& after.stats.trade_count == a.stats.trade_count + 1
            &&& after.stats.wins - a.stats.wins == if pnl.m > 0 {
                1int
            } else {
                0
            }
            &&& after.stats.losses - a.stats.losses == if pnl.m < 0 {
                1int
            } else {
                0
            }
            &&& after.stats.date == a.stats.date
            &&& a.with_equity(after.current_equity, now) matches Some(other) && other.halted
                == after.halted && other.halted_at == after.halted_at
        }),
{
    law_sum_is_exact(a.current_equity, pnl);
    law_sum_is_exact(a.stats.realized_pnl, pnl);
    lemma_units_sign(pnl);
    lemma_units_sign(zero());
}

/// The share of winning trades lies between nothing and all of them, up to a rounding, and is that
/// of the wins among the trades.
pub proof fn law_win_share_by_value(s: Stats)
    requires
        0 <= s.wins <= s.trade_count <= u32::MAX,
        s.win_share() is Some,
    ensures
        s.trade_count == 0 ==> s.win_share()->0.units() == 0,
        s.trade_count > 0 ==> rounds_to(
            s.wins * pow10(28) * pow10(28),
            s.trade_count * pow10(28),
            s.win_share()->0.units(),
        ),
{
    lemma_units_sign(zero());
    if s.trade_count > 0 {
        law_quotient_is_rounded(whole(s.wins), whole(s.trade_count));
    }
}

/// A new day forgets the halt and the trades, and starts with the equity that there is: what was lost
/// the day before is not held against it.
pub proof fn law_new_day_starts_afresh(a: Account, date: Option<Moment>)
    ensures
        a.new_day(date).starting_equity == a.current_equity,
        a.new_day(date).current_equity == a.current_equity,
        !a.new_day(date).halted,
        a.new_day(date).halted_at is None,
        a.new_day(date).stats.trade_count == 0,
        a.new_day(date).stats.wins == 0,
        a.new_day(date).stats.losses == 0,
        a.new_day(date).stats.realized_pnl.m == 0,
        a.new_day(date).stats.date == date,
        balanced(a.new_day(date)),
{
    lemma_units_sign(zero());
}

/// A new equity is always taken where the loss that it means can be held, and a halted account takes any;
/// an account that has lost nothing has no loss to hold.
pub proof fn law_equity_is_owed(a: Account, equity: Dec, now: Moment)
    requires
        a.starting_equity.valid(),
        equity.valid(),
        aligned_sum(a.starting_equity, equity.negated()).valid(),
    ensures
        a.halted ==> a.with_equity(equity, now) is Some,
        equity.units() >= a.starting_equity.units() ==> a.with_equity(equity, now) is Some,
        a.starting_equity.m != 0 && quotient(
            difference(a.starting_equity, equity)->0,
            a.starting_equity,
        ) is Some ==> a.with_equity(equity, now) is Some,
{
    law_difference_is_exact(a.starting_equity, equity);
    lemma_units_sign(zero());
}

} // verus!
