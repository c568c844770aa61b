//! In-trade position management with a state machine.
use crate::decimal::{
    abs_opt, aligned_sum, difference, div_opt, law_difference_is_exact, law_product_is_exact,
    law_product_is_rounded, law_quotient_of_multiple, law_quotient_reaches, law_sum_is_exact,
    lemma_pow10_add, lemma_pow10_positive, lemma_units_sign, mul_opt, opt_view, pow10, product,
    product_of, quotient, quotient_of, rounds_to, sum, zero, Dec, Decimal, Price, Volume,
};
use crate::exchange::config;
use crate::exchange::orders::{stop_limit, OcoOrderRequest, OrderSide};
use crate::time::{opt_moment, Moment, Timestamp};
use crate::types::position::Position;
use vstd::prelude::*;

verus! {

/// State of an active trade position.
#[derive(Clone, Copy, Debug, PartialEq, Eq, Structural)]
pub enum TradeState {
    /// Position just opened, initial SL/TP placed.
    Open,
    /// Price reached 1.5R, SL moved to breakeven, 33% closed.
    FirstTpHit,
    /// Price reached 2.5R, trailing stop activated.
    TrailingActive,
    /// Position is closed.
    Closed,
}

impl TradeState {
    /// The place of the state in the course of a position.
    pub open spec fn rank(self) -> int {
        match self {
            TradeState::Open => 0,
            TradeState::FirstTpHit => 1,
            TradeState::TrailingActive => 2,
            TradeState::Closed => 3,
        }
    }
}

impl Default for TradeState {
    fn default() -> (r: TradeState)
        ensures
            r == TradeState::Open,
    {
        TradeState::Open
    }
}

/// Managed position with in-trade management state.
#[derive(Clone, Debug)]
pub struct ManagedPosition {
    /// Trading symbol.
    pub symbol: String,
    /// Position direction.
    pub direction: Position,
    /// Entry price.
    pub entry_price: Price,
    /// Original stop loss price.
    pub original_stop_loss: Price,
    /// Current stop loss price (may be moved to breakeven).
    pub current_stop_loss: Price,
    /// Take profit price.
    pub take_profit: Price,
    /// Original position size.
    pub original_quantity: Volume,
    /// Current remaining quantity.
    pub current_quantity: Volume,
    /// Risk amount (entry - stop loss in price).
    pub risk_per_unit: Price,
    /// Current ATR value for trailing stop.
    pub atr_value: Decimal,
    /// Current trade state.
    pub state: TradeState,
    /// OCO order list ID (if active).
    pub oco_order_list_id: Option<u64>,
    /// Stop loss order ID.
    pub stop_loss_order_id: Option<u64>,
    /// Take profit order ID.
    pub take_profit_order_id: Option<u64>,
    /// Trailing stop order ID (if activated).
    pub trailing_stop_order_id: Option<u64>,
    /// Position opened at.
    pub opened_at: Timestamp,
    /// Position closed at.
    pub closed_at: Option<Timestamp>,
    /// Total realized P&L.
    pub realized_pnl: Decimal,
}

/// The model of a managed position.
pub struct Managed {
    pub symbol: Seq<char>,
    pub direction: Position,
    pub entry_price: Dec,
    pub original_stop_loss: Dec,
    pub current_stop_loss: Dec,
    pub take_profit: Dec,
    pub original_quantity: Dec,
    pub current_quantity: Dec,
    pub risk_per_unit: Dec,
    pub atr_value: Dec,
    pub state: TradeState,
    pub oco_order_list_id: Option<u64>,
    pub stop_loss_order_id: Option<u64>,
    pub take_profit_order_id: Option<u64>,
    pub trailing_stop_order_id: Option<u64>,
    pub opened_at: Moment,
    pub closed_at: Option<Moment>,
    pub realized_pnl: Dec,
}

impl View for ManagedPosition {
    type V = Managed;

    open spec fn view(&self) -> Managed {
        Managed {
            symbol: self.symbol@,
            direction: self.direction,
            entry_price: self.entry_price@,
            original_stop_loss: self.original_stop_loss@,
            current_stop_loss: self.current_stop_loss@,
            take_profit: self.take_profit@,
            original_quantity: self.original_quantity@,
            current_quantity: self.current_quantity@,
            risk_per_unit: self.risk_per_unit@,
            atr_value: self.atr_value@,
            state: self.state,
            oco_order_list_id: self.oco_order_list_id,
            stop_loss_order_id: self.stop_loss_order_id,
            take_profit_order_id: self.take_profit_order_id,
            trailing_stop_order_id: self.trailing_stop_order_id,
            opened_at: self.opened_at@,
            closed_at: opt_moment(self.closed_at),
            realized_pnl: self.realized_pnl@,
        }
    }
}

/// The position that is opened at `now` with the given risk per unit.
pub open spec fn fresh_position(
    symbol: Seq<char>,
    direction: Position,
    entry: Dec,
    stop: Dec,
    target: Dec,
    quantity: Dec,
    atr: Dec,
    risk: Dec,
    now: Moment,
) -> Managed {
    Managed {
        symbol,
        direction,
        entry_price: entry,
        original_stop_loss: stop,
        current_stop_loss: stop,
        take_profit: target,
        original_quantity: quantity,
        current_quantity: quantity,
        risk_per_unit: risk,
        atr_value: atr,
        state: TradeState::Open,
        oco_order_list_id: None,
        stop_loss_order_id: None,
        take_profit_order_id: None,
        trailing_stop_order_id: None,
        opened_at: now,
        closed_at: None,
        realized_pnl: zero(),
    }
}

/// The model of a management action.
pub enum Management {
    Hold,
    FirstTp { quantity: Dec, new_stop_loss: Dec },
    Trail { offset: Dec },
    Close { reason: Seq<char> },
}

impl Managed {
    /// Profit of one unit at a price.
    pub open spec fn pnl_per_unit(self, price: Dec) -> Option<Dec> {
        match self.direction {
            Position::Long => difference(price, self.entry_price),
            Position::Short => difference(self.entry_price, price),
            Position::Flat => Some(zero()),
        }
    }

    /// Profit in multiples of the initial risk; zero where there was no risk.
    pub open spec fn r_multiple(self, price: Dec) -> Option<Dec> {
        if self.risk_per_unit.m == 0 {
            Some(zero())
        } else {
            quotient_of(self.pnl_per_unit(price), Some(self.risk_per_unit))
        }
    }

    /// Profit of what is left of the position.
    pub open spec fn pnl(self, price: Dec) -> Option<Dec> {
        product_of(self.pnl_per_unit(price), Some(self.current_quantity))
    }

    /// The quantity to close at the first take profit.
    pub open spec fn first_tp_quantity(self) -> Option<Dec> {
        product(self.original_quantity, config::first_tp_share())
    }

    /// The distance at which the stop trails the price.
    pub open spec fn trailing_offset(self) -> Option<Dec> {
        product(self.atr_value, config::trailing_factor())
    }

    /// The side of an order that closes the position.
    pub open spec fn close_side(self) -> OrderSide {
        match self.direction {
            Position::Short => OrderSide::Buy,
            _ => OrderSide::Sell,
        }
    }

    /// Something is left of the position.
    pub open spec fn active(self) -> bool {
        self.state != TradeState::Closed && self.current_quantity.units() > zero().units()
    }

    /// The first take profit is due at the given multiple.
    pub open spec fn first_tp_due(self, r: Dec) -> bool {
        self.state == TradeState::Open && r.units() >= config::first_tp_r().units()
    }

    /// The trailing stop is due at the given multiple.
    pub open spec fn trailing_due(self, r: Dec) -> bool {
        (self.state == TradeState::Open || self.state == TradeState::FirstTpHit) && r.units()
            >= config::trailing_r().units()
    }

    /// What to do at a multiple of the risk: the trailing stop comes before the first take profit.
    /// Nothing where a figure that this takes cannot be held.
    pub open spec fn evaluated_at(self, r: Dec) -> Option<Management> {
        if self.trailing_due(r) {
            match self.trailing_offset() {
                Some(offset) => Some(Management::Trail { offset }),
                None => None,
            }
        } else if self.first_tp_due(r) {
            match self.first_tp_quantity() {
                Some(quantity) => Some(
                    Management::FirstTp { quantity, new_stop_loss: self.entry_price },
                ),
                None => None,
            }
        } else {
            Some(Management::Hold)
        }
    }

    /// What to do at a price. A position that is closed or trails already is left alone.
    pub open spec fn evaluated(self, price: Dec) -> Option<Management> {
        if !self.active() || self.state == TradeState::TrailingActive {
            Some(Management::Hold)
        } else {
            match self.r_multiple(price) {
                None => None,
                Some(r) => self.evaluated_at(r),
            }
        }
    }

    /// The position after a part of it was closed: the stop is at breakeven.
    pub open spec fn after_first_tp(self, closed: Dec, realized: Dec) -> Option<Managed> {
        match (difference(self.current_quantity, closed), sum(self.realized_pnl, realized)) {
            (Some(current_quantity), Some(realized_pnl)) => Some(
                Managed {
                    state: TradeState::FirstTpHit,
                    current_quantity,
                    current_stop_loss: self.entry_price,
                    realized_pnl,
                    ..self
                },
            ),
            _ => None,
        }
    }

    /// The position after its fixed orders were replaced by a trailing stop.
    pub open spec fn trailing(self, order_id: u64) -> Managed {
        Managed {
            state: TradeState::TrailingActive,
            trailing_stop_order_id: Some(order_id),
            stop_loss_order_id: None,
            take_profit_order_id: None,
            ..self
        }
    }

    /// The position after it was closed.
    pub open spec fn closed(self, final_pnl: Dec, now: Moment) -> Option<Managed> {
        match sum(self.realized_pnl, final_pnl) {
            Some(realized_pnl) => Some(
                Managed {
                    state: TradeState::Closed,
                    current_quantity: zero(),
                    realized_pnl,
                    closed_at: Some(now),
                    ..self
                },
            ),
            None => None,
        }
    }
}

/// An evaluation proposes the first take profit only for a position that has just been opened,
/// and never goes back to an earlier state.
pub proof fn law_management_goes_forward(p: Managed, price: Dec)
    ensures
        p.evaluated(price) is Some ==> match p.evaluated(price)->0 {
            Management::FirstTp { quantity, new_stop_loss } => p.state == TradeState::Open
                && new_stop_loss == p.entry_price,
            Management::Trail { offset } => p.state.rank() < TradeState::TrailingActive.rank(),
            Management::Close { reason } => false,
            Management::Hold => true,
        },
{
}

/// A closed position is left alone, and nothing of it is left.
pub proof fn law_closed_position_rests(p: Managed, pnl: Dec, now: Moment, price: Dec)
    requires
        p.closed(pnl, now) is Some,
    ensures
        !p.closed(pnl, now)->0.active(),
        p.closed(pnl, now)->0.evaluated(price) == Some(Management::Hold),
{
}

impl ManagedPosition {
    /// Creates a position that is opened at `now`, or nothing where the risk cannot be held.
    pub fn new_at(
        symbol: &str,
        direction: Position,
        entry_price: Price,
        stop_loss: Price,
        take_profit: Price,
        quantity: Volume,
        atr_value: Decimal,
        now: Timestamp,
    ) -> (r: Option<ManagedPosition>)
        ensures
            match difference(entry_price@, stop_loss@) {
                Some(d) => r is Some && r->0@ == fresh_position(
                    symbol@,
                    direction,
                    entry_price@,
                    stop_loss@,
                    take_profit@,
                    quantity@,
                    atr_value@,
                    d.magnitude(),
                    now@,
                ),
                None => r is None,
            },
    {
        let risk_per_unit = abs_opt(entry_price.checked_sub(&stop_loss))?;
        Some(
            ManagedPosition::with_risk(
                symbol,
                direction,
                entry_price,
                stop_loss,
                take_profit,
                quantity,
                atr_value,
                risk_per_unit,
                now,
            ),
        )
    }

    /// Creates a position whose risk per unit is known.
    pub fn with_risk(
        symbol: &str,
        direction: Position,
        entry_price: Price,
        stop_loss: Price,
        take_profit: Price,
        quantity: Volume,
        atr_value: Decimal,
        risk_per_unit: Decimal,
        now: Timestamp,
    ) -> (r: ManagedPosition)
        ensures
            r@ == fresh_position(
                symbol@,
                direction,
                entry_price@,
                stop_loss@,
                take_profit@,
                quantity@,
                atr_value@,
                risk_per_unit@,
                now@,
            ),
    {
        ManagedPosition {
            symbol: symbol.to_owned(),
            direction,
            entry_price,
            original_stop_loss: stop_loss,
            current_stop_loss: stop_loss,
            take_profit,
            original_quantity: quantity,
            current_quantity: quantity,
            risk_per_unit,
            atr_value,
            state: TradeState::Open,
            oco_order_list_id: None,
            stop_loss_order_id: None,
            take_profit_order_id: None,
            trailing_stop_order_id: None,
            opened_at: now,
            closed_at: None,
            realized_pnl: Decimal::zero(),
        }
    }

    /// Creates a new managed position.
    pub fn new(
        symbol: &str,
        direction: Position,
        entry_price: Price,
        stop_loss: Price,
        take_profit: Price,
        quantity: Volume,
        atr_value: Decimal,
    ) -> (r: ManagedPosition)
        requires
            difference(entry_price@, stop_loss@) is Some,
        ensures
            r@ == fresh_position(
                symbol@,
                direction,
                entry_price@,
                stop_loss@,
                take_profit@,
                quantity@,
                atr_value@,
                difference(entry_price@, stop_loss@)->0.magnitude(),
                r@.opened_at,
            ),
    {
        let now = Timestamp::now();
        ManagedPosition::new_at(
            symbol,
            direction,
            entry_price,
            stop_loss,
            take_profit,
            quantity,
            atr_value,
            now,
        ).unwrap()
    }

    /// [`ManagedPosition::new`], or nothing where the risk cannot be held.
    pub fn checked_new(
        symbol: &str,
        direction: Position,
        entry_price: Price,
        stop_loss: Price,
        take_profit: Price,
        quantity: Volume,
        atr_value: Decimal,
    ) -> (r: Option<ManagedPosition>)
        ensures
            r is Some == difference(entry_price@, stop_loss@) is Some,
            r is Some ==> r->0@ == fresh_position(
                symbol@,
                direction,
                entry_price@,
                stop_loss@,
                take_profit@,
                quantity@,
                atr_value@,
                difference(entry_price@, stop_loss@)->0.magnitude(),
                r->0@.opened_at,
            ),
    {
        if entry_price.checked_sub(&stop_loss).is_none() {
            return None;
        }
        Some(
            ManagedPosition::new(
                symbol,
                direction,
                entry_price,
                stop_loss,
                take_profit,
                quantity,
                atr_value,
            ),
        )
    }

    fn pnl_per_unit(&self, price: Price) -> (r: Option<Decimal>)
        ensures
            opt_view(r) == self@.pnl_per_unit(price@),
    {
        match self.direction {
            Position::Long => price.checked_sub(&self.entry_price),
            Position::Short => self.entry_price.checked_sub(&price),
            Position::Flat => Some(Decimal::zero()),
        }
    }

    fn r_multiple_of(&self, price: Price) -> (r: Option<Decimal>)
        ensures
            opt_view(r) == self@.r_multiple(price@),
    {
        if self.risk_per_unit.is_zero() {
            return Some(Decimal::zero());
        }
        div_opt(self.pnl_per_unit(price), Some(self.risk_per_unit))
    }

    /// Calculates current profit in R-multiples.
    pub fn current_r_multiple(&self, current_price: Price) -> (r: Decimal)
        requires
            self@.r_multiple(current_price@) is Some,
        ensures
            Some(r@) == self@.r_multiple(current_price@),
    {
        self.r_multiple_of(current_price).unwrap()
    }

    /// [`ManagedPosition::current_r_multiple`], or nothing where it cannot be held.
    pub fn checked_r_multiple(&self, current_price: Price) -> (r: Option<Decimal>)
        ensures
            opt_view(r) == self@.r_multiple(current_price@),
    {
        if self.r_multiple_of(current_price).is_some() {
            Some(self.current_r_multiple(current_price))
        } else {
            None
        }
    }

    /// Calculates unrealized P&L at current price.
    pub fn unrealized_pnl(&self, current_price: Price) -> (r: Decimal)
        requires
            self@.pnl(current_price@) is Some,
        ensures
            Some(r@) == self@.pnl(current_price@),
    {
        mul_opt(self.pnl_per_unit(current_price), Some(self.current_quantity)).unwrap()
    }

    /// [`ManagedPosition::unrealized_pnl`], or nothing where it cannot be held.
    pub fn checked_unrealized_pnl(&self, current_price: Price) -> (r: Option<Decimal>)
        ensures
            opt_view(r) == self@.pnl(current_price@),
    {
        if mul_opt(self.pnl_per_unit(current_price), Some(self.current_quantity)).is_some() {
            Some(self.unrealized_pnl(current_price))
        } else {
            None
        }
    }

    /// Checks if position should transition to FirstTpHit state.
    pub fn should_hit_first_tp(&self, current_price: Price) -> (r: bool)
        requires
            self@.state == TradeState::Open ==> self@.r_multiple(current_price@) is Some,
        ensures
            r == (self@.state == TradeState::Open && self@.first_tp_due(
                self@.r_multiple(current_price@)->0,
            )),
    {
        self.state == TradeState::Open && config::first_tp_r_multiple().le(
            &self.current_r_multiple(current_price),
        )
    }

    /// Checks if position should transition to TrailingActive state.
    pub fn should_activate_trailing(&self, current_price: Price) -> (r: bool)
        requires
            self@.state == TradeState::Open || self@.state == TradeState::FirstTpHit
                ==> self@.r_multiple(current_price@) is Some,
        ensures
            r == ((self@.state == TradeState::Open || self@.state == TradeState::FirstTpHit)
                && self@.trailing_due(self@.r_multiple(current_price@)->0)),
    {
        (self.state == TradeState::Open || self.state == TradeState::FirstTpHit)
            && config::trailing_activation_r().le(&self.current_r_multiple(current_price))
    }

    /// Calculates quantity to close at first TP (33%).
    pub fn first_tp_close_quantity(&self) -> (r: Volume)
        requires
            self@.first_tp_quantity() is Some,
        ensures
            Some(r@) == self@.first_tp_quantity(),
    {
        self.original_quantity.checked_mul(&config::first_tp_close_pct()).unwrap()
    }

    /// Calculates trailing stop offset based on ATR.
    pub fn trailing_stop_offset(&self) -> (r: Decimal)
        requires
            self@.trailing_offset() is Some,
        ensures
            Some(r@) == self@.trailing_offset(),
    {
        self.atr_value.checked_mul(&config::trailing_atr_multiplier()).unwrap()
    }

    /// Returns the order side needed to close this position.
    pub fn close_side(&self) -> (r: OrderSide)
        ensures
            r == self@.close_side(),
    {
        match self.direction {
            Position::Long => OrderSide::Sell,
            Position::Short => OrderSide::Buy,
            Position::Flat => OrderSide::Sell,
        }
    }

    /// Transitions to FirstTpHit state after partial close.
    pub fn transition_to_first_tp(&mut self, closed_quantity: Volume, realized_pnl: Decimal)
        requires
            old(self)@.after_first_tp(closed_quantity@, realized_pnl@) is Some,
        ensures
            Some(final(self)@) == old(self)@.after_first_tp(closed_quantity@, realized_pnl@),
    {
        self.state = TradeState::FirstTpHit;
        self.current_quantity = self.current_quantity.checked_sub(&closed_quantity).unwrap();
        self.current_stop_loss = self.entry_price;
        self.realized_pnl = self.realized_pnl.checked_add(&realized_pnl).unwrap();
    }

    /// [`ManagedPosition::transition_to_first_tp`], or `false` and no change where a figure cannot
    /// be held.
    pub fn checked_transition_to_first_tp(
        &mut self,
        closed_quantity: Volume,
        realized_pnl: Decimal,
    ) -> (r: bool)
        ensures
            r == old(self)@.after_first_tp(closed_quantity@, realized_pnl@) is Some,
            r ==> Some(final(self)@) == old(self)@.after_first_tp(closed_quantity@, realized_pnl@),
            !r ==> *final(self) == *old(self),
    {
        if self.current_quantity.checked_sub(&closed_quantity).is_none()
            || self.realized_pnl.checked_add(&realized_pnl).is_none() {
            return false;
        }
        self.transition_to_first_tp(closed_quantity, realized_pnl);
        true
    }

    /// Transitions to TrailingActive state: the fixed SL/TP orders are gone.
    pub fn transition_to_trailing(&mut self, trailing_order_id: u64)
        ensures
            final(self)@ == old(self)@.trailing(trailing_order_id),
    {
        self.state = TradeState::TrailingActive;
        self.trailing_stop_order_id = Some(trailing_order_id);
        self.stop_loss_order_id = None;
        self.take_profit_order_id = None;
    }

    /// Closes the position completely, at `now`.
    pub fn close_at(&mut self, final_pnl: Decimal, now: Timestamp)
        requires
            sum(old(self)@.realized_pnl, final_pnl@) is Some,
        ensures
            Some(final(self)@) == old(self)@.closed(final_pnl@, now@),
    {
        self.state = TradeState::Closed;
        self.current_quantity = Decimal::zero();
        self.realized_pnl = self.realized_pnl.checked_add(&final_pnl).unwrap();
        self.closed_at = Some(now);
    }

    /// Closes the position completely.
    pub fn close(&mut self, final_pnl: Decimal)
        requires
            sum(old(self)@.realized_pnl, final_pnl@) is Some,
        ensures
            final(self)@.closed_at is Some,
            Some(final(self)@) == old(self)@.closed(final_pnl@, final(self)@.closed_at->0),
    {
        let now = Timestamp::now();
        self.close_at(final_pnl, now);
    }

    /// [`ManagedPosition::close`], or `false` and no change where the profit cannot be held.
    pub fn checked_close(&mut self, final_pnl: Decimal) -> (r: bool)
        ensures
            r == sum(old(self)@.realized_pnl, final_pnl@) is Some,
            r ==> final(self)@.closed_at is Some && Some(final(self)@) == old(self)@.closed(
                final_pnl@,
                final(self)@.closed_at->0,
            ),
            !r ==> *final(self) == *old(self),
    {
        if self.realized_pnl.checked_add(&final_pnl).is_none() {
            return false;
        }
        self.close(final_pnl);
        true
    }

    /// Returns true if position is still active.
    pub fn is_active(&self) -> (r: bool)
        ensures
            r == self@.active(),
    {
        self.state != TradeState::Closed && Decimal::zero().lt(&self.current_quantity)
    }

    /// Creates OCO order request for this position.
    pub fn create_oco_request(&self, slippage: Decimal) -> (r: OcoOrderRequest)
        requires
            self@.direction.active(),
            stop_limit(self@.close_side(), self@.current_stop_loss, slippage@) is Some,
        ensures
            r.closes(
                self@.symbol,
                self@.close_side(),
                self.current_quantity,
                self.take_profit,
                self.current_stop_loss,
                slippage@,
            ),
    {
        match self.direction {
            Position::Long => OcoOrderRequest::close_long(
                self.symbol.as_str(),
                self.current_quantity,
                self.take_profit,
                self.current_stop_loss,
                slippage,
            ),
            _ => OcoOrderRequest::close_short(
                self.symbol.as_str(),
                self.current_quantity,
                self.take_profit,
                self.current_stop_loss,
                slippage,
            ),
        }
    }

    /// [`ManagedPosition::create_oco_request`], or nothing without a position or where the limit
    /// price cannot be held.
    pub fn checked_oco_request(&self, slippage: Decimal) -> (r: Option<OcoOrderRequest>)
        ensures
            r is Some == (self@.direction.active() && stop_limit(
                self@.close_side(),
                self@.current_stop_loss,
                slippage@,
            ) is Some),
            r is Some ==> r->0.closes(
                self@.symbol,
                self@.close_side(),
                self.current_quantity,
                self.take_profit,
                self.current_stop_loss,
                slippage@,
            ),
    {
        if !self.direction.is_active() {
            return None;
        }
        if crate::exchange::orders::stop_limit_price(
            self.close_side(),
            self.current_stop_loss,
            slippage,
        ).is_none() {
            return None;
        }
        Some(self.create_oco_request(slippage))
    }
}

/// Action to take based on position state and current price.
#[derive(Clone, Debug, PartialEq)]
pub enum ManagementAction {
    /// No action needed.
    Hold,
    /// Execute first TP: move SL to breakeven, close 33%.
    ExecuteFirstTp { quantity_to_close: Volume, new_stop_loss: Price },
    /// Activate trailing stop.
    ActivateTrailingStop { offset: Decimal },
    /// Close position completely.
    ClosePosition { reason: String },
}

impl View for ManagementAction {
    type V = Management;

    open spec fn view(&self) -> Management {
        match *self {
            ManagementAction::Hold => Management::Hold,
            ManagementAction::ExecuteFirstTp { quantity_to_close, new_stop_loss } =>
                Management::FirstTp {
                quantity: quantity_to_close@,
                new_stop_loss: new_stop_loss@,
            },
            ManagementAction::ActivateTrailingStop { offset } => Management::Trail {
                offset: offset@,
            },
            ManagementAction::ClosePosition { reason } => Management::Close { reason: reason@ },
        }
    }
}

/// Evaluates what action to take for a managed position.
pub fn evaluate_position(position: &ManagedPosition, current_price: Price) -> (r: ManagementAction)
    requires
        position@.evaluated(current_price@) is Some,
    ensures
        Some(r@) == position@.evaluated(current_price@),
{
    if !position.is_active() {
        return ManagementAction::Hold;
    }
    if position.should_activate_trailing(current_price) {
        return ManagementAction::ActivateTrailingStop { offset: position.trailing_stop_offset() };
    }
    if position.should_hit_first_tp(current_price) {
        return ManagementAction::ExecuteFirstTp {
            quantity_to_close: position.first_tp_close_quantity(),
            new_stop_loss: position.entry_price,
        };
    }
    ManagementAction::Hold
}

/// What to do with a position at a multiple of its risk. Nothing where a figure that this takes
/// cannot be held.
pub fn action_at_multiple(position: &ManagedPosition, r_multiple: Decimal) -> (r: Option<
    ManagementAction,
>)
    ensures
        match position@.evaluated_at(r_multiple@) {
            Some(a) => r is Some && r->0@ == a,
            None => r is None,
        },
{
    let may_trail = position.state == TradeState::Open || position.state == TradeState::FirstTpHit;
    if may_trail && config::trailing_activation_r().le(&r_multiple) {
        let offset = position.atr_value.checked_mul(&config::trailing_atr_multiplier())?;
        return Some(ManagementAction::ActivateTrailingStop { offset });
    }
    if position.state == TradeState::Open && config::first_tp_r_multiple().le(&r_multiple) {
        let quantity_to_close = position.original_quantity.checked_mul(
            &config::first_tp_close_pct(),
        )?;
        return Some(
            ManagementAction::ExecuteFirstTp {
                quantity_to_close,
                new_stop_loss: position.entry_price,
            },
        );
    }
    Some(ManagementAction::Hold)
}

/// [`evaluate_position`], or nothing where a figure that it takes cannot be held.
pub fn checked_evaluate_position(position: &ManagedPosition, current_price: Price) -> (r: Option<
    ManagementAction,
>)
    ensures
        match position@.evaluated(current_price@) {
            Some(a) => r is Some && r->0@ == a,
            None => r is None,
        },
{
    if position.is_active() && position.state != TradeState::TrailingActive {
        let r_multiple = position.r_multiple_of(current_price)?;
        if action_at_multiple(position, r_multiple).is_none() {
            return None;
        }
    }
    Some(evaluate_position(position, current_price))
}

/// The gain of one unit at a price, by value: how far the price is above the entry of a long position
/// or below that of a short one; without a position there is none.
pub open spec fn gain(p: Managed, price: Dec) -> int {
    if p.direction == Position::Long {
        price.units() - p.entry_price.units()
    } else if p.direction == Position::Short {
        p.entry_price.units() - price.units()
    } else {
        0
    }
}

/// The entry and a price can be subtracted without loss.
pub open spec fn comparable(p: Managed, price: Dec) -> bool {
    &&& p.entry_price.valid() && price.valid()
    &&& aligned_sum(price, p.entry_price.negated()).valid()
    &&& aligned_sum(p.entry_price, price.negated()).valid()
}

/// The profit of one unit is the gain of the price on the entry.
pub proof fn law_unit_profit_by_value(p: Managed, price: Dec)
    requires
        comparable(p, price),
    ensures
        p.pnl_per_unit(price) is Some,
        p.pnl_per_unit(price)->0.valid(),
        p.pnl_per_unit(price)->0.units() == gain(p, price),
{
    law_difference_is_exact(price, p.entry_price);
    law_difference_is_exact(p.entry_price, price);
    lemma_units_sign(zero());
}

/// The profit of what is left of a position is the gain times the quantity, rounded.
pub proof fn law_profit_by_value(p: Managed, price: Dec)
    requires
        comparable(p, price),
        p.current_quantity.valid(),
        p.pnl(price) is Some,
    ensures
        rounds_to(
            gain(p, price) * p.current_quantity.units(),
            pow10(28),
            p.pnl(price)->0.units(),
        ),
{
    law_unit_profit_by_value(p, price);
    law_product_is_rounded(p.pnl_per_unit(price)->0, p.current_quantity);
}

/// The management of a position by the gain of the price, where the position was opened with a risk:
/// it trails from a gain of two and a half risks on, and before that, in its first state, takes its
/// first profit from one and a half risks on; below that it is left alone. Only a hundred units of the
/// smallest scale are left open around the two bounds, and the bounds themselves are not.
pub proof fn law_management_by_gain(p: Managed, price: Dec)
    requires
        p.state == TradeState::Open || p.state == TradeState::FirstTpHit,
        p.current_quantity.units() > 0,
        p.evaluated(price) is Some,
        comparable(p, price),
        p.risk_per_unit.valid(),
        p.risk_per_unit.units() > 0,
    ensures
        ({
            let risk = p.risk_per_unit.units();
            let won = gain(p, price);
            let action = p.evaluated(price)->0;
            &&& 10 * won == 25 * risk || won * pow10(28) >= risk * (25 * pow10(27) + 102)
                ==> action is Trail
            &&& won * pow10(28) < risk * (25 * pow10(27) - 102) ==> !(action is Trail)
            &&& p.state == TradeState::Open && (10 * won == 15 * risk || won * pow10(28) >= risk * (15
                * pow10(27) + 102)) ==> action is FirstTp || action is Trail
            &&& won * pow10(28) < risk * (15 * pow10(27) - 102) ==> action is Hold
            &&& p.state == TradeState::FirstTpHit ==> !(action is FirstTp)
            &&& !(action is Close)
        }),
{
    law_unit_profit_by_value(p, price);
    lemma_units_sign(p.risk_per_unit);
    lemma_units_sign(zero());
    let a = p.pnl_per_unit(price)->0;
    let b = p.risk_per_unit;
    let t = pow10(27);
    lemma_pow10_positive(27);
    assert(pow10(28) == 10 * t);
    assert(pow10(29) == 10 * pow10(28));
    assert(config::first_tp_r().units() == 15 * t);
    assert(config::trailing_r().units() == 25 * t);
    law_quotient_reaches(a, b, 15 * t);
    law_quotient_reaches(a, b, 25 * t);
    let won = gain(p, price);
    let risk = b.units();
    let h = pow10(8);
    let w = pow10(20);
    lemma_pow10_add(7, 20);
    reveal_with_fuel(pow10, 9);
    assert(h == 100000000);
    assert(pow10(7) == 10000000);
    assert(t == 10000000 * w);
    assert(won * (10 * t) < risk * (15 * t - 102) ==> won * (10 * t) < risk * (25 * t - 102))
        by (nonlinear_arith)
        requires
            risk > 0,
            t >= 1,
    ;
    if 10 * won == 25 * risk {
        assert(won * h == 250000000 * risk) by (nonlinear_arith)
            requires
                10 * won == 25 * risk,
                h == 100000000,
        ;
        law_quotient_of_multiple(a, b, 250000000);
    }
    if 10 * won == 15 * risk {
        assert(won * h == 150000000 * risk) by (nonlinear_arith)
            requires
                10 * won == 15 * risk,
                h == 100000000,
        ;
        law_quotient_of_multiple(a, b, 150000000);
    }
}

/// The figures of the two actions: the trailing stop keeps twice the average true range from the
/// price, and the first profit is taken on 33 hundredths of the quantity that was opened, with the
/// stop at the entry.
pub proof fn law_action_figures_by_value(p: Managed, price: Dec)
    requires
        p.evaluated(price) is Some,
    ensures
        p.evaluated(price)->0 matches Management::Trail { offset } ==> p.atr_value.valid() && (Dec {
            m: p.atr_value.m * 20,
            s: p.atr_value.s + 1,
        }).valid() ==> offset.units() == 2 * p.atr_value.units(),
        p.evaluated(price)->0 matches Management::FirstTp { quantity, new_stop_loss } ==> {
            &&& new_stop_loss == p.entry_price
            &&& p.original_quantity.valid() && (Dec {
                m: p.original_quantity.m * 33,
                s: p.original_quantity.s + 2,
            }).valid() ==> 100 * quantity.units() == 33 * p.original_quantity.units()
        },
{
    let t = pow10(27);
    let w = pow10(26);
    lemma_pow10_positive(26);
    lemma_pow10_positive(27);
    assert(pow10(28) == 10 * t);
    assert(t == 10 * w);
    if p.atr_value.valid() && (Dec { m: p.atr_value.m * 20, s: p.atr_value.s + 1 }).valid() {
        let f = config::trailing_factor();
        law_product_is_exact(p.atr_value, f);
        assert(f.units() == 20 * t);
        let q = product(p.atr_value, f)->0;
        assert(q.units() == 2 * p.atr_value.units()) by (nonlinear_arith)
            requires
                q.units() * (10 * t) == p.atr_value.units() * (20 * t),
                t >= 1,
        ;
    }
    if p.original_quantity.valid() && (Dec {
        m: p.original_quantity.m * 33,
        s: p.original_quantity.s + 2,
    }).valid() {
        let f = config::first_tp_share();
        law_product_is_exact(p.original_quantity, f);
        assert(f.units() == 33 * w);
        let q = product(p.original_quantity, f)->0;
        assert(100 * q.units() == 33 * p.original_quantity.units()) by (nonlinear_arith)
            requires
                q.units() * (100 * w) == p.original_quantity.units() * (33 * w),
                w >= 1,
        ;
    }
}

/// What the first take profit leaves of a position: the closed part is off its quantity, its profit is
/// added, the stop is at the entry; what it was opened with and its orders stay.
pub proof fn law_first_profit_by_value(p: Managed, closed: Dec, realized: Dec)
    requires
        p.current_quantity.valid(),
        p.realized_pnl.valid(),
        closed.valid(),
        realized.valid(),
        aligned_sum(p.current_quantity, closed.negated()).valid(),
        aligned_sum(p.realized_pnl, realized).valid(),
    ensures
        p.after_first_tp(closed, realized) is Some,
        ({
            let after = p.after_first_tp(closed, realized)->0;
            &&& after.state == TradeState::FirstTpHit
            &&& after.current_quantity.units() == p.current_quantity.units() - closed.units()
            &&& after.realized_pnl.units() == p.realized_pnl.units() + realized.units()
            &&& after.current_stop_loss == p.entry_price
            &&& after == (Managed {
                state: TradeState::FirstTpHit,
                current_quantity: after.current_quantity,
                realized_pnl: after.realized_pnl,
                current_stop_loss: p.entry_price,
                ..p
            })
        }),
{
    law_difference_is_exact(p.current_quantity, closed);
    law_sum_is_exact(p.realized_pnl, realized);
}

/// A position that trails has the identifier of its trailing stop and those of the fixed orders no
/// more; a position that is closed has nothing left, the moment of its end, and the last profit added.
pub proof fn law_last_states_by_value(p: Managed, order_id: u64, pnl: Dec, now: Moment)
    requires
        p.realized_pnl.valid(),
        pnl.valid(),
        aligned_sum(p.realized_pnl, pnl).valid(),
    ensures
        p.trailing(order_id).state == TradeState::TrailingActive,
        p.trailing(order_id).trailing_stop_order_id == Some(order_id),
        p.trailing(order_id).stop_loss_order_id is None,
        p.trailing(order_id).take_profit_order_id is None,
        p.trailing(order_id).current_quantity == p.current_quantity,
        p.trailing(order_id).realized_pnl == p.realized_pnl,
        p.closed(pnl, now) is Some,
        p.closed(pnl, now)->0.state == TradeState::Closed,
        p.closed(pnl, now)->0.current_quantity.m == 0,
        p.closed(pnl, now)->0.realized_pnl.units() == p.realized_pnl.units() + pnl.units(),
        p.closed(pnl, now)->0.closed_at == Some(now),
        p.closed(pnl, now)->0.opened_at == p.opened_at,
{
    law_sum_is_exact(p.realized_pnl, pnl);
}

/// A new position keeps what it was opened with: stop and quantity are at first what they were at the
/// opening, no order belongs to it, and it has made nothing yet.
pub proof fn law_fresh_position_by_value(
    symbol: Seq<char>,
    direction: Position,
    entry: Dec,
    stop: Dec,
    target: Dec,
    quantity: Dec,
    atr: Dec,
    risk: Dec,
    now: Moment,
)
    ensures
        ({
            let p = fresh_position(symbol, direction, entry, stop, target, quantity, atr, risk, now);
            &&& p.symbol == symbol && p.direction == direction
            &&& p.entry_price == entry && p.take_profit == target
            &&& p.original_stop_loss == stop && p.current_stop_loss == stop
            &&& p.original_quantity == quantity && p.current_quantity == quantity
            &&& p.risk_per_unit == risk && p.atr_value == atr
            &&& p.state == TradeState::Open && p.realized_pnl.m == 0
            &&& p.opened_at == now && p.closed_at is None
            &&& p.oco_order_list_id is None && p.stop_loss_order_id is None
            &&& p.take_profit_order_id is None && p.trailing_stop_order_id is None
        }),
{
}

/// A long position is closed by a sale, a short one by a purchase.
pub proof fn law_closing_side(p: Managed)
    ensures
        p.direction == Position::Long ==> p.close_side() == OrderSide::Sell,
        p.direction == Position::Short ==> p.close_side() == OrderSide::Buy,
{
}

/// A position that was opened without risk is left alone at every price.
pub proof fn law_no_risk_no_action(p: Managed, price: Dec)
    requires
        p.risk_per_unit.m == 0,
    ensures
        p.evaluated(price) == Some(Management::Hold),
{
    lemma_units_sign(zero());
    lemma_pow10_positive(27);
    assert(config::first_tp_r().units() == 15 * pow10(27));
    assert(config::trailing_r().units() == 25 * pow10(27));
}

/// Nothing is done with a position that is closed, has nothing left, or trails already.
pub proof fn law_finished_positions_rest(p: Managed, price: Dec)
    requires
        p.state == TradeState::Closed || p.current_quantity.m <= 0 || p.state
            == TradeState::TrailingActive,
    ensures
        p.evaluated(price) == Some(Management::Hold),
        p.state == TradeState::Closed || p.current_quantity.m <= 0 ==> !p.active(),
{
    lemma_units_sign(zero());
    lemma_units_sign(p.current_quantity);
}

/// The management of a position by the multiple of its risk, in units of the smallest scale: from 2.5 on
/// it trails, from 1.5 on it takes its first profit where it has not yet, and otherwise it is left alone.
pub proof fn law_management_by_multiple(p: Managed, r: Dec)
    requires
        p.evaluated_at(r) is Some,
    ensures
        ({
            let action = p.evaluated_at(r)->0;
            let m = r.units();
            &&& p.state == TradeState::Open && m >= 25 * pow10(27) ==> action is Trail
            &&& p.state == TradeState::FirstTpHit && m >= 25 * pow10(27) ==> action is Trail
            &&& p.state == TradeState::Open && 15 * pow10(27) <= m < 25 * pow10(27)
                ==> action is FirstTp
            &&& p.state == TradeState::FirstTpHit && m < 25 * pow10(27) ==> action is Hold
            &&& m < 15 * pow10(27) ==> action is Hold
        }),
{
    lemma_pow10_positive(27);
    assert(config::first_tp_r().units() == 15 * pow10(27));
    assert(config::trailing_r().units() == 25 * pow10(27));
}

/// An evaluation is owed wherever its figures fit.
pub proof fn law_evaluation_is_owed(p: Managed, price: Dec)
    requires
        comparable(p, price),
        p.risk_per_unit.m == 0 || quotient(p.pnl_per_unit(price)->0, p.risk_per_unit) is Some,
        p.atr_value.valid(),
        (Dec { m: p.atr_value.m * 20, s: p.atr_value.s + 1 }).valid(),
        p.original_quantity.valid(),
        (Dec { m: p.original_quantity.m * 33, s: p.original_quantity.s + 2 }).valid(),
    ensures
        p.evaluated(price) is Some,
{
    law_unit_profit_by_value(p, price);
    law_product_is_exact(p.atr_value, config::trailing_factor());
    law_product_is_exact(p.original_quantity, config::first_tp_share());
}

} // verus!
