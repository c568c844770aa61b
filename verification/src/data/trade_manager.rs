//! The life of a trade: what to do at a price, and how the trade and its line in the log change.
use crate::data::csv_logger::{
    copy_record, law_update_changes_its_own_record, lemma_row_of_id, lemma_rows, lemma_time_is_free, line_with_id,
    open_records, record_views, records_of, rows_read, update_outcome, CsvError, CsvLogger, Update,
};
use crate::data::trade_record::{
    comparable, entry_risk, fresh_record, gain, law_multiple_by_value, law_trailing_stop_by_value,
    law_unit_profit_by_value, record_of_line, short, Record, TradeDirection, TradePhase,
    TradeRecord, TradeStatus, DECIMAL_PLACES,
};
use crate::decimal::{
    abs_int, aligned_sum, difference, law_difference_is_exact, law_product_is_exact, law_product_is_rounded,
    law_rounding_is_nearest, law_sum_is_exact, lemma_pow10_add, lemma_pow10_positive, mul_opt, pow10,
    product, product_of, quotient, round_opt, rounded_of, rounds_to, sum, sum_of, zero, Dec, Decimal,
};
use crate::text::{
    join, lemma_lines_round_trip, lemma_unbroken_is_plain, lines_of, plain_line, same_text, split_on,
    text_of_lines, unbroken,
};
use crate::time::{Moment, Timestamp};
use vstd::prelude::*;

verus! {

/// R-multiple at which Phase 2 begins.
pub open spec fn phase2_r() -> Dec {
    Dec { m: 15, s: 1 }
}

/// Share of the position that is closed at Phase 2.
pub open spec fn phase2_share() -> Dec {
    Dec { m: 33, s: 2 }
}

/// R-multiple at which Phase 3 begins.
pub open spec fn phase3_r() -> Dec {
    Dec { m: 25, s: 1 }
}

/// ATR multiplier of the trailing stop.
pub open spec fn trailing_multiplier() -> Dec {
    Dec { m: 20, s: 1 }
}

/// R-multiple at which to trigger Phase 2 (stop to breakeven, close a third).
pub fn phase2_r_multiple() -> (r: Decimal)
    ensures
        r@ == phase2_r(),
{
    Decimal::new(15, 1)
}

/// Share of the position to close at Phase 2.
pub fn phase2_close_percent() -> (r: Decimal)
    ensures
        r@ == phase2_share(),
{
    Decimal::new(33, 2)
}

/// R-multiple at which to trigger Phase 3 (trailing stop).
pub fn phase3_r_multiple() -> (r: Decimal)
    ensures
        r@ == phase3_r(),
{
    Decimal::new(25, 1)
}

/// ATR multiplier for trailing stop calculation.
pub fn trailing_stop_atr_mult() -> (r: Decimal)
    ensures
        r@ == trailing_multiplier(),
{
    Decimal::new(20, 1)
}

/// Errors that can occur during trade management.
#[derive(Debug)]
pub enum TradeManagerError {
    Csv(CsvError),
    TradeNotFound { id: String },
    TradeAlreadyClosed { id: String },
    InvalidPhaseTransition { from: String, to: String },
}

impl TradeManagerError {
    /// The message of the error.
    pub open spec fn message(self) -> Seq<char> {
        match self {
            TradeManagerError::Csv(e) => "CSV error: "@ + e.message(),
            TradeManagerError::TradeNotFound { id } => "Trade not found: "@ + id@,
            TradeManagerError::TradeAlreadyClosed { id } => "Trade already closed: "@ + id@,
            TradeManagerError::InvalidPhaseTransition { from, to } =>
                "Invalid phase transition from "@ + from@ + " to "@ + to@,
        }
    }

    /// The message of the error.
    pub fn to_string(&self) -> (r: String)
        ensures
            r@ == self.message(),
    {
        match self {
            TradeManagerError::Csv(e) => "CSV error: ".to_owned().concat(e.to_string().as_str()),
            TradeManagerError::TradeNotFound { id } => "Trade not found: ".to_owned().concat(
                id.as_str(),
            ),
            TradeManagerError::TradeAlreadyClosed { id } =>
                "Trade already closed: ".to_owned().concat(id.as_str()),
            TradeManagerError::InvalidPhaseTransition { from, to } =>
                "Invalid phase transition from ".to_owned().concat(from.as_str()).concat(
                " to ",
            ).concat(to.as_str()),
        }
    }
}

/// The model of a trade action.
pub enum Action {
    Hold,
    Phase2 { close_quantity: Dec, new_stop_loss: Dec },
    Phase3 { trailing_stop: Dec },
    Close { exit_price: Dec, reason: Seq<char> },
}

/// Result of evaluating a trade's current state.
#[derive(Clone, Debug, PartialEq)]
pub enum TradeAction {
    /// No action required.
    Hold,
    /// Transition to Phase 2: stop to breakeven, close a third.
    TransitionPhase2 { close_quantity: Decimal, new_stop_loss: Decimal },
    /// Transition to Phase 3: activate trailing stop.
    TransitionPhase3 { trailing_stop: Decimal },
    /// Close the trade (stop loss or take profit hit).
    CloseTrade { exit_price: Decimal, reason: String },
}

impl View for TradeAction {
    type V = Action;

    open spec fn view(&self) -> Action {
        match *self {
            TradeAction::Hold => Action::Hold,
            TradeAction::TransitionPhase2 { close_quantity, new_stop_loss } => Action::Phase2 {
                close_quantity: close_quantity@,
                new_stop_loss: new_stop_loss@,
            },
            TradeAction::TransitionPhase3 { trailing_stop } => Action::Phase3 {
                trailing_stop: trailing_stop@,
            },
            TradeAction::CloseTrade { exit_price, reason } => Action::Close {
                exit_price: exit_price@,
                reason: reason@,
            },
        }
    }
}

impl Record {
    /// The price has reached the stop.
    pub open spec fn stop_hit(self, price: Dec) -> bool {
        match self.direction {
            TradeDirection::Long => price.units() <= self.stop_loss.units(),
            TradeDirection::Short => price.units() >= self.stop_loss.units(),
        }
    }

    /// The price has reached the target.
    pub open spec fn target_hit(self, price: Dec) -> bool {
        match self.direction {
            TradeDirection::Long => price.units() >= self.take_profit.units(),
            TradeDirection::Short => price.units() <= self.take_profit.units(),
        }
    }

    /// `stop` is closer to the price, in the trade's favour, than the present stop.
    pub open spec fn tightens(self, stop: Dec) -> bool {
        match self.direction {
            TradeDirection::Long => stop.units() > self.stop_loss.units(),
            TradeDirection::Short => stop.units() < self.stop_loss.units(),
        }
    }

    /// The move to Phase 3, with the stop behind the price.
    pub open spec fn phase3_action(self, price: Dec) -> Option<Action> {
        match self.trailing_stop(price, trailing_multiplier()) {
            Some(trailing_stop) => Some(Action::Phase3 { trailing_stop }),
            None => None,
        }
    }

    /// The move to Phase 2: a third is closed, and the stop goes to the entry price.
    pub open spec fn phase2_action(self) -> Option<Action> {
        match rounded_of(product(self.position_size, phase2_share()), DECIMAL_PLACES as nat) {
            Some(close_quantity) => Some(
                Action::Phase2 { close_quantity, new_stop_loss: self.entry_price },
            ),
            None => None,
        }
    }

    /// What to do with an open trade at a price and its multiple of the risk: the stop comes first,
    /// then the target, then the highest phase that was reached. Nothing where a figure that this
    /// takes cannot be held.
    pub open spec fn evaluated_at(self, price: Dec, r: Dec) -> Option<Action> {
        if self.stop_hit(price) {
            Some(Action::Close { exit_price: self.stop_loss, reason: "Stop Loss"@ })
        } else if self.target_hit(price) {
            Some(Action::Close { exit_price: self.take_profit, reason: "Take Profit"@ })
        } else {
            match self.phase {
                TradePhase::Phase1 => if r.units() >= phase3_r().units() {
                    self.phase3_action(price)
                } else if r.units() >= phase2_r().units() {
                    self.phase2_action()
                } else {
                    Some(Action::Hold)
                },
                TradePhase::Phase2 => if r.units() >= phase3_r().units() {
                    self.phase3_action(price)
                } else {
                    Some(Action::Hold)
                },
                TradePhase::Phase3 => match self.trailing_stop(price, trailing_multiplier()) {
                    Some(trailing_stop) => if self.tightens(trailing_stop) {
                        Some(Action::Phase3 { trailing_stop })
                    } else {
                        Some(Action::Hold)
                    },
                    None => None,
                },
            }
        }
    }

    /// What to do with the trade at a price. A trade that is not open is left alone.
    pub open spec fn evaluated(self, price: Dec) -> Option<Action> {
        if self.status != TradeStatus::Open {
            Some(Action::Hold)
        } else {
            match self.r_multiple(price) {
                None => None,
                Some(r) => self.evaluated_at(price, r),
            }
        }
    }

    /// The record after the move to Phase 2, or nothing where a figure cannot be held.
    pub open spec fn in_phase2(self, quantity: Dec, stop: Dec, price: Dec) -> Option<Record> {
        match rounded_of(
            product_of(self.pnl_per_unit(price), Some(quantity)),
            DECIMAL_PLACES as nat,
        ) {
            Some(realized) => (Record {
                phase: TradePhase::Phase2,
                stop_loss: stop.rounded(DECIMAL_PLACES as nat),
                ..self
            }).reduced(quantity, realized),
            None => None,
        }
    }

    /// The record after the move to Phase 3, or after the trailing stop moved.
    pub open spec fn in_phase3(self, stop: Dec) -> Record {
        Record {
            phase: TradePhase::Phase3,
            stop_loss: stop.rounded(DECIMAL_PLACES as nat),
            ..self
        }
    }

    /// The profit of the whole trade when what is left of it is closed at a price.
    pub open spec fn total_pnl(self, exit_price: Dec) -> Option<Dec> {
        sum_of(Some(self.realized_pnl), self.pnl(exit_price))
    }

    /// The record after the trade was closed for good, or nothing where a figure cannot be held.
    pub open spec fn finished(self, exit_price: Dec, now: Moment) -> Option<Record> {
        match (self.total_pnl(exit_price), self.closed(exit_price, now)) {
            (Some(total), Some(r)) => Some(
                Record { realized_pnl: total.rounded(DECIMAL_PLACES as nat), ..r },
            ),
            _ => None,
        }
    }
}

/// In Phase 3 the stop only ever moves in the trade's favour.
pub proof fn law_trailing_stop_tightens(r: Record, price: Dec, stop: Dec)
    requires
        r.phase == TradePhase::Phase3,
        r.evaluated(price) == Some(Action::Phase3 { trailing_stop: stop }),
    ensures
        r.tightens(stop),
{
}

/// A stop that was hit closes the trade at the stop, whatever else was reached.
pub proof fn law_stop_comes_first(r: Record, price: Dec)
    requires
        r.status == TradeStatus::Open,
        r.r_multiple(price) is Some,
        r.stop_hit(price),
    ensures
        r.evaluated(price) == Some(
            Action::Close { exit_price: r.stop_loss, reason: "Stop Loss"@ },
        ),
{
}

/// An evaluation never proposes to go back to an earlier phase.
pub proof fn law_phases_go_upward(r: Record, price: Dec)
    ensures
        r.evaluated(price) is Some ==> match r.evaluated(price)->0 {
            Action::Phase2 { close_quantity, new_stop_loss } => r.phase == TradePhase::Phase1
                && new_stop_loss == r.entry_price,
            Action::Phase3 { trailing_stop } => r.phase.rank() <= TradePhase::Phase3.rank(),
            _ => true,
        },
{
}

/// The first trade from `from` on with the given identifier.
pub open spec fn trade_with_id(trades: Seq<Record>, id: Seq<char>, from: int) -> Option<int>
    decreases trades.len() - from,
{
    if from < 0 || from >= trades.len() {
        None
    } else if trades[from].id == id {
        Some(from)
    } else {
        trade_with_id(trades, id, from + 1)
    }
}

/// The trades whose identifier is another.
pub open spec fn without_id(trades: Seq<Record>, id: Seq<char>) -> Seq<Record> {
    trades.filter(|t: Record| t.id != id)
}

/// What stays as it is where the log is not updated.
pub open spec fn empty_update() -> Update {
    Update {
        exit_price: None,
        realized_pnl: None,
        status: None,
        phase: None,
        stop_loss: None,
        position_size: None,
    }
}

/// The answer is that of the log's update.
pub open spec fn answers_update(r: Result<(), TradeManagerError>) -> bool {
    r is Ok || r->Err_0 is Csv
}

/// The answer of the log's update that a result passes on.
pub open spec fn update_answer(r: Result<(), TradeManagerError>) -> Result<(), CsvError> {
    match r {
        Err(TradeManagerError::Csv(e)) => Err(e),
        _ => Ok(()),
    }
}

/// The state of a manager: the active trades and the lines of the log.
pub struct Book {
    pub trades: Seq<Record>,
    pub lines: Seq<Seq<char>>,
}

/// What the move to Phase 2 does to the book, and what it answers. The trade changes even where
/// the log has no line for it.
pub open spec fn phase2_outcome(
    before: Book,
    after: Book,
    id: Seq<char>,
    quantity: Dec,
    stop: Dec,
    price: Dec,
    now: Moment,
    r: Result<(), TradeManagerError>,
) -> bool {
    match trade_with_id(before.trades, id, 0) {
        None => not_found_outcome(before, after, id, r),
        Some(i) => {
            let trade = before.trades[i];
            if trade.phase != TradePhase::Phase1 {
                after == before && r is Err && r->Err_0 is InvalidPhaseTransition
                    && r->Err_0->InvalidPhaseTransition_from@ == trade.phase.word()
                    && r->Err_0->InvalidPhaseTransition_to@ == "Phase2"@
            } else {
                let next = trade.in_phase2(quantity, stop, price)->0;
                &&& after.trades == before.trades.update(i, next)
                &&& answers_update(r)
                &&& update_outcome(
                    before.lines,
                    after.lines,
                    id,
                    Update {
                        realized_pnl: Some(next.realized_pnl),
                        phase: Some(TradePhase::Phase2),
                        stop_loss: Some(stop),
                        position_size: Some(next.position_size),
                        ..empty_update()
                    },
                    now,
                    update_answer(r),
                )
            }
        },
    }
}

/// What a trade that is not there is answered.
pub open spec fn not_found_outcome(
    before: Book,
    after: Book,
    id: Seq<char>,
    r: Result<(), TradeManagerError>,
) -> bool {
    after == before && r is Err && r->Err_0 is TradeNotFound && r->Err_0->TradeNotFound_id@ == id
}

/// What the move to Phase 3 does to the book, and what it answers.
pub open spec fn phase3_outcome(
    before: Book,
    after: Book,
    id: Seq<char>,
    stop: Dec,
    now: Moment,
    r: Result<(), TradeManagerError>,
) -> bool {
    match trade_with_id(before.trades, id, 0) {
        None => not_found_outcome(before, after, id, r),
        Some(i) => {
            &&& after.trades == before.trades.update(i, before.trades[i].in_phase3(stop))
            &&& answers_update(r)
            &&& update_outcome(
                before.lines,
                after.lines,
                id,
                Update {
                    phase: Some(TradePhase::Phase3),
                    stop_loss: Some(stop),
                    ..empty_update()
                },
                now,
                update_answer(r),
            )
        },
    }
}

/// What closing a trade does to the book, and what it answers. The trade leaves the active ones
/// when the log has taken the update; where it has no line for it, the closed trade stays.
pub open spec fn close_outcome(
    before: Book,
    after: Book,
    id: Seq<char>,
    exit_price: Dec,
    now: Moment,
    r: Result<(), TradeManagerError>,
) -> bool {
    match trade_with_id(before.trades, id, 0) {
        None => not_found_outcome(before, after, id, r),
        Some(i) => {
            let trade = before.trades[i];
            if trade.status == TradeStatus::Closed {
                after == before && r is Err && r->Err_0 is TradeAlreadyClosed
                    && r->Err_0->TradeAlreadyClosed_id@ == id
            } else {
                let total = trade.total_pnl(exit_price)->0;
                let next = trade.finished(exit_price, now)->0;
                &&& answers_update(r)
                &&& update_outcome(
                    before.lines,
                    after.lines,
                    id,
                    Update {
                        exit_price: Some(exit_price),
                        realized_pnl: Some(total),
                        status: Some(TradeStatus::Closed),
                        position_size: Some(zero()),
                        ..empty_update()
                    },
                    now,
                    update_answer(r),
                )
                &&& r is Ok ==> after.trades == without_id(before.trades.update(i, next), id)
                &&& r is Err ==> after.trades == before.trades.update(i, next)
            }
        },
    }
}

/// What an action does to the book, and what it answers.
pub open spec fn action_outcome(
    before: Book,
    after: Book,
    id: Seq<char>,
    action: Action,
    price: Dec,
    now: Moment,
    r: Result<(), TradeManagerError>,
) -> bool {
    match action {
        Action::Hold => after == before && r is Ok,
        Action::Phase2 { close_quantity, new_stop_loss } => phase2_outcome(
            before,
            after,
            id,
            close_quantity,
            new_stop_loss,
            price,
            now,
            r,
        ),
        Action::Phase3 { trailing_stop } => phase3_outcome(before, after, id, trailing_stop, now, r),
        Action::Close { exit_price, reason } => close_outcome(
            before,
            after,
            id,
            exit_price,
            now,
            r,
        ),
    }
}

/// An action that does not close a trade does the same at every moment.
pub proof fn lemma_action_time_is_free(
    before: Book,
    after: Book,
    id: Seq<char>,
    action: Action,
    price: Dec,
    now: Moment,
    other: Moment,
    r: Result<(), TradeManagerError>,
)
    requires
        !(action is Close),
        action_outcome(before, after, id, action, price, now, r),
    ensures
        action_outcome(before, after, id, action, price, other, r),
{
    match (action, trade_with_id(before.trades, id, 0)) {
        (Action::Phase2 { close_quantity, new_stop_loss }, Some(i)) => {
            if before.trades[i].phase == TradePhase::Phase1 {
                let next = before.trades[i].in_phase2(close_quantity, new_stop_loss, price)->0;
                let u = Update {
                    realized_pnl: Some(next.realized_pnl),
                    phase: Some(TradePhase::Phase2),
                    stop_loss: Some(new_stop_loss),
                    position_size: Some(next.position_size),
                    ..empty_update()
                };
                lemma_time_is_free(
                    before.lines,
                    after.lines,
                    id,
                    u,
                    now,
                    other,
                    update_answer(r),
                );
            }
        },
        (Action::Phase3 { trailing_stop }, Some(i)) => {
            let u = Update {
                phase: Some(TradePhase::Phase3),
                stop_loss: Some(trailing_stop),
                ..empty_update()
            };
            lemma_time_is_free(before.lines, after.lines, id, u, now, other, update_answer(r));
        },
        _ => {},
    }
}

/// The figures that closing a trade takes can be held.
pub open spec fn close_defined(trades: Seq<Record>, id: Seq<char>, exit_price: Dec) -> bool {
    match trade_with_id(trades, id, 0) {
        None => true,
        Some(i) => trades[i].status == TradeStatus::Closed || (trades[i].total_pnl(exit_price)
            is Some && trades[i].pnl(exit_price.rounded(DECIMAL_PLACES as nat)) is Some),
    }
}

/// The figures that an action takes can be held.
pub open spec fn action_defined(
    trades: Seq<Record>,
    id: Seq<char>,
    action: Action,
    price: Dec,
) -> bool {
    match action {
        Action::Phase2 { close_quantity, new_stop_loss } => match trade_with_id(trades, id, 0) {
            None => true,
            Some(i) => trades[i].phase != TradePhase::Phase1 || trades[i].in_phase2(
                close_quantity,
                new_stop_loss,
                price,
            ) is Some,
        },
        Action::Close { exit_price, reason } => close_defined(trades, id, exit_price),
        _ => true,
    }
}

/// No action sends a trade back to an earlier phase.
pub proof fn law_actions_go_upward(
    before: Book,
    after: Book,
    id: Seq<char>,
    action: Action,
    price: Dec,
    now: Moment,
    r: Result<(), TradeManagerError>,
    i: int,
)
    requires
        action_outcome(before, after, id, action, price, now, r),
        action_defined(before.trades, id, action, price),
        !(action is Close),
        0 <= i < before.trades.len(),
    ensures
        after.trades.len() == before.trades.len(),
        after.trades[i].phase.rank() >= before.trades[i].phase.rank(),
        after.trades[i].id == before.trades[i].id,
        after.trades[i].id != id ==> after.trades[i] == before.trades[i],
{
    lemma_trade_with_id(before.trades, id, 0);
}

/// A trade that was closed for good is not active any more.
pub proof fn law_closed_trade_leaves(
    before: Book,
    after: Book,
    id: Seq<char>,
    exit_price: Dec,
    now: Moment,
    r: Result<(), TradeManagerError>,
)
    requires
        close_outcome(before, after, id, exit_price, now, r),
        r is Ok,
    ensures
        trade_with_id(after.trades, id, 0) is None,
{
    lemma_trade_with_id(before.trades, id, 0);
    lemma_trade_with_id(after.trades, id, 0);
    let i = trade_with_id(before.trades, id, 0)->0;
    let next = before.trades[i].finished(exit_price, now)->0;
    let p = |t: Record| t.id != id;
    broadcast use vstd::seq_lib::group_filter_ensures;
    assert forall|k: int| 0 <= k < after.trades.len() implies (#[trigger] after.trades[k]).id
        != id by {
        assert(p(before.trades.update(i, next).filter(p)[k]));
    }
}

/// A trade that is found has the identifier, and one that is not found is not there.
pub proof fn lemma_trade_with_id(trades: Seq<Record>, id: Seq<char>, from: int)
    requires
        0 <= from,
    ensures
        match trade_with_id(trades, id, from) {
            Some(i) => from <= i < trades.len() && trades[i].id == id,
            None => forall|k: int| from <= k < trades.len() ==> (#[trigger] trades[k]).id != id,
        },
    decreases trades.len() - from,
{
    if from < trades.len() && trades[from].id != id {
        lemma_trade_with_id(trades, id, from + 1);
    }
}

/// What to do with a trade at a price, if the figures that this takes can be held.
fn evaluate_record(trade: &TradeRecord, current_price: Decimal) -> (r: Option<TradeAction>)
    ensures
        match trade@.evaluated(current_price@) {
            Some(a) => r is Some && r->0@ == a,
            None => r is None,
        },
{
    if trade.status != TradeStatus::Open {
        return Some(TradeAction::Hold);
    }
    let r_multiple = trade.checked_r_multiple(current_price)?;
    evaluate_at(trade, current_price, r_multiple)
}

/// What to do with an open trade at a price and its multiple of the risk. Nothing where a figure
/// that this takes cannot be held.
pub fn evaluate_at(trade: &TradeRecord, current_price: Decimal, r_multiple: Decimal) -> (r: Option<
    TradeAction,
>)
    ensures
        match trade@.evaluated_at(current_price@, r_multiple@) {
            Some(a) => r is Some && r->0@ == a,
            None => r is None,
        },
{
    let stop_hit = match trade.direction {
        TradeDirection::Long => current_price.le(&trade.stop_loss),
        TradeDirection::Short => trade.stop_loss.le(&current_price),
    };
    if stop_hit {
        return Some(
            TradeAction::CloseTrade { exit_price: trade.stop_loss, reason: "Stop Loss".to_owned() },
        );
    }
    let target_hit = match trade.direction {
        TradeDirection::Long => trade.take_profit.le(&current_price),
        TradeDirection::Short => current_price.le(&trade.take_profit),
    };
    if target_hit {
        return Some(
            TradeAction::CloseTrade {
                exit_price: trade.take_profit,
                reason: "Take Profit".to_owned(),
            },
        );
    }
    match trade.phase {
        TradePhase::Phase1 => {
            if phase3_r_multiple().le(&r_multiple) {
                let trailing_stop = trade.checked_trailing_stop_price(
                    current_price,
                    trailing_stop_atr_mult(),
                )?;
                return Some(TradeAction::TransitionPhase3 { trailing_stop });
            }
            if phase2_r_multiple().le(&r_multiple) {
                let close_quantity = round_opt(
                    trade.position_size.checked_mul(&phase2_close_percent()),
                    DECIMAL_PLACES,
                )?;
                return Some(
                    TradeAction::TransitionPhase2 {
                        close_quantity,
                        new_stop_loss: trade.entry_price,
                    },
                );
            }
        },
        TradePhase::Phase2 => {
            if phase3_r_multiple().le(&r_multiple) {
                let trailing_stop = trade.checked_trailing_stop_price(
                    current_price,
                    trailing_stop_atr_mult(),
                )?;
                return Some(TradeAction::TransitionPhase3 { trailing_stop });
            }
        },
        TradePhase::Phase3 => {
            let trailing_stop = trade.checked_trailing_stop_price(
                current_price,
                trailing_stop_atr_mult(),
            )?;
            let tighter = match trade.direction {
                TradeDirection::Long => trade.stop_loss.lt(&trailing_stop),
                TradeDirection::Short => trailing_stop.lt(&trade.stop_loss),
            };
            if tighter {
                return Some(TradeAction::TransitionPhase3 { trailing_stop });
            }
        },
    }
    Some(TradeAction::Hold)
}

/// Trade manager for handling trade lifecycle.
pub struct TradeManager {
    logger: CsvLogger,
    active_trades: Vec<TradeRecord>,
}

impl TradeManager {
    /// The active trades.
    pub closed spec fn trades(&self) -> Seq<Record> {
        record_views(self.active_trades@)
    }

    /// The log.
    pub closed spec fn log(&self) -> CsvLogger {
        self.logger
    }

    /// The active trades and the lines of the log.
    pub open spec fn book(&self) -> Book {
        Book { trades: self.trades(), lines: self.log().lines() }
    }

    /// Creates a manager with a new log and no trades.
    pub fn new(csv_path: &str) -> (r: TradeManager)
        ensures
            r.trades() == Seq::<Record>::empty(),
            r.log().records() == Seq::<Record>::empty(),
            r.log().path_text() == csv_path@,
            r.log().lines().len() == 1,
            kept(r.book()),
    {
        let active_trades: Vec<TradeRecord> = Vec::new();
        assert(record_views(active_trades@) =~= Seq::<Record>::empty());
        let r = TradeManager { logger: CsvLogger::new(csv_path), active_trades };
        proof {
            reveal(Seq::filter);
            assert(r.log().lines().skip(1) =~= Seq::<Seq<char>>::empty());
            assert(open_records(Seq::<Record>::empty()) =~= Seq::<Record>::empty());
            assert(logged_all(r.trades()) =~= Seq::<Record>::empty());
        }
        r
    }

    /// Creates a manager on a log; its open trades are the active ones.
    pub fn with_log(logger: CsvLogger) -> (r: TradeManager)
        ensures
            r.log() == logger,
            r.trades() == open_records(logger.records()),
            forall|trades: Seq<Record>|
                #[trigger] kept(Book { trades, lines: logger.lines() }) ==> r.trades()
                    == logged_all(trades) && kept(r.book()),
    {
        let active_trades = logger.find_open_trades();
        let r = TradeManager { logger, active_trades };
        proof {
            assert forall|trades: Seq<Record>|
                #[trigger] kept(Book { trades, lines: logger.lines() }) implies r.trades()
                == logged_all(trades) && kept(r.book()) by {
                law_log_gives_back_the_trades(Book { trades, lines: logger.lines() });
            }
        }
        r
    }

    /// Creates a manager with a new log at the default path.
    pub fn default_path() -> (r: TradeManager)
        ensures
            r.trades() == Seq::<Record>::empty(),
            r.log().records() == Seq::<Record>::empty(),
            r.log().path_text() == "trades_log.csv"@,
            r.log().lines().len() == 1,
            kept(r.book()),
    {
        TradeManager::new("trades_log.csv")
    }

    /// Opens a new trade and logs it. A trade that fits the log is then among its open trades, so
    /// a manager that starts from the log finds it again.
    pub fn open_trade(
        &mut self,
        id: &str,
        symbol: &str,
        direction: TradeDirection,
        entry_price: Decimal,
        stop_loss: Decimal,
        take_profit: Decimal,
        position_size: Decimal,
        atr_value: Decimal,
        entry_rsi: Decimal,
        entry_adx: Decimal,
        trend_condition: String,
    ) -> (r: TradeRecord)
        requires
            entry_risk(entry_price@, stop_loss@) is Some,
        ensures
            r@ == fresh_record(
                id@,
                symbol@,
                direction,
                entry_price@,
                stop_loss@,
                take_profit@,
                position_size@,
                atr_value@,
                entry_rsi@,
                entry_adx@,
                trend_condition@,
                entry_risk(entry_price@, stop_loss@)->0,
                r@.entry_time,
            ),
            r@.entry_time.valid(),
            final(self).trades() == old(self).trades().push(r@),
            final(self).log().lines() == old(self).log().lines().push(join(r@.columns(), ',')),
            old(self).log().lines().len() >= 1 && r@.fits_log() ==> open_records(
                final(self).log().records(),
            ) == open_records(old(self).log().records()).push(r@.logged()),
            kept(old(self).book()) && r@.fits_log() && r@.unbroken_texts() && line_with_id(
                old(self).log().lines(),
                id@,
                1,
            ) is None ==> kept(final(self).book()),
    {
        let now = Timestamp::now();
        self.open_trade_at(
            id,
            symbol,
            direction,
            entry_price,
            stop_loss,
            take_profit,
            position_size,
            atr_value,
            entry_rsi,
            entry_adx,
            trend_condition,
            now,
        ).unwrap()
    }

    /// Opens a new trade at `now` and logs it. Nothing and no change where the risk cannot be held.
    pub fn open_trade_at(
        &mut self,
        id: &str,
        symbol: &str,
        direction: TradeDirection,
        entry_price: Decimal,
        stop_loss: Decimal,
        take_profit: Decimal,
        position_size: Decimal,
        atr_value: Decimal,
        entry_rsi: Decimal,
        entry_adx: Decimal,
        trend_condition: String,
        now: Timestamp,
    ) -> (r: Option<TradeRecord>)
        ensures
            match entry_risk(entry_price@, stop_loss@) {
                Some(risk) => {
                    &&& r is Some
                    &&& r->0@ == fresh_record(
                        id@,
                        symbol@,
                        direction,
                        entry_price@,
                        stop_loss@,
                        take_profit@,
                        position_size@,
                        atr_value@,
                        entry_rsi@,
                        entry_adx@,
                        trend_condition@,
                        risk,
                        now@,
                    )
                    &&& final(self).trades() == old(self).trades().push(r->0@)
                    &&& final(self).log().lines() == old(self).log().lines().push(
                        join(r->0@.columns(), ','),
                    )
                    &&& old(self).log().lines().len() >= 1 && r->0@.fits_log() ==> open_records(
                        final(self).log().records(),
                    ) == open_records(old(self).log().records()).push(r->0@.logged())
                    &&& kept(old(self).book()) && r->0@.fits_log() && r->0@.unbroken_texts()
                        && line_with_id(old(self).log().lines(), id@, 1) is None ==> kept(
                        final(self).book(),
                    )
                },
                None => r is None && *final(self) == *old(self),
            },
    {
        let record = TradeRecord::new_at(
            id,
            symbol,
            direction,
            entry_price,
            stop_loss,
            take_profit,
            position_size,
            atr_value,
            entry_rsi,
            entry_adx,
            trend_condition,
            now,
        )?;
        let ghost logged = self.logger.records();
        let ghost trades = self.trades();
        self.logger.append_record(&record);
        self.active_trades.push(copy_record(&record));
        proof {
            assert(self.trades() =~= trades.push(record@));
            let p = |m: Record| m.status == TradeStatus::Open;
            let more = logged.push(record@.logged());
            assert(more.drop_last() =~= logged);
            reveal(Seq::filter);
            assert(more.filter(p) == logged.filter(p).push(record@.logged()));
            if kept(old(self).book()) && record@.fits_log() && record@.unbroken_texts()
                && line_with_id(old(self).log().lines(), id@, 1) is None {
                law_opening_keeps_the_log(old(self).book(), self.book(), record@);
            }
        }
        Some(record)
    }

    /// [`TradeManager::open_trade`], or nothing and no change where the risk cannot be held.
    pub fn checked_open_trade(
        &mut self,
        id: &str,
        symbol: &str,
        direction: TradeDirection,
        entry_price: Decimal,
        stop_loss: Decimal,
        take_profit: Decimal,
        position_size: Decimal,
        atr_value: Decimal,
        entry_rsi: Decimal,
        entry_adx: Decimal,
        trend_condition: String,
    ) -> (r: Option<TradeRecord>)
        ensures
            r is Some == entry_risk(entry_price@, stop_loss@) is Some,
            r is None ==> *final(self) == *old(self),
            r is Some ==> r->0@ == fresh_record(
                id@,
                symbol@,
                direction,
                entry_price@,
                stop_loss@,
                take_profit@,
                position_size@,
                atr_value@,
                entry_rsi@,
                entry_adx@,
                trend_condition@,
                entry_risk(entry_price@, stop_loss@)->0,
                r->0@.entry_time,
            ) && final(self).trades() == old(self).trades().push(r->0@) && final(self).log().lines()
                == old(self).log().lines().push(join(r->0@.columns(), ',')),
            r is Some && kept(old(self).book()) && r->0@.fits_log() && r->0@.unbroken_texts()
                && line_with_id(old(self).log().lines(), id@, 1) is None ==> kept(
                final(self).book(),
            ),
    {
        let probe = TradeRecord::checked_new(
            "",
            "",
            direction,
            entry_price,
            stop_loss,
            take_profit,
            position_size,
            atr_value,
            entry_rsi,
            entry_adx,
            String::new(),
        );
        if probe.is_none() {
            return None;
        }
        Some(
            self.open_trade(
                id,
                symbol,
                direction,
                entry_price,
                stop_loss,
                take_profit,
                position_size,
                atr_value,
                entry_rsi,
                entry_adx,
                trend_condition,
            ),
        )
    }

    fn position_of(&self, trade_id: &str) -> (r: Option<usize>)
        ensures
            match trade_with_id(self.trades(), trade_id@, 0) {
                Some(i) => r is Some && r->0 as int == i && 0 <= i < self.trades().len(),
                None => r is None,
            },
    {
        let mut i: usize = 0;
        while i < self.active_trades.len()
            invariant
                trade_with_id(self.trades(), trade_id@, 0) == trade_with_id(
                    self.trades(),
                    trade_id@,
                    i as int,
                ),
            decreases self.active_trades.len() - i,
        {
            assert(self.trades()[i as int] == self.active_trades@[i as int]@);
            if same_text(self.active_trades[i].id.as_str(), trade_id) {
                return Some(i);
            }
            i = i + 1;
        }
        None
    }

    /// Finds a trade by ID.
    pub fn find_trade(&self, trade_id: &str) -> (r: Option<&TradeRecord>)
        ensures
            match trade_with_id(self.trades(), trade_id@, 0) {
                Some(i) => r is Some && r->0@ == self.trades()[i],
                None => r is None,
            },
    {
        match self.position_of(trade_id) {
            Some(i) => {
                assert(self.trades()[i as int] == self.active_trades@[i as int]@);
                Some(&self.active_trades[i])
            },
            None => None,
        }
    }

    /// Evaluates what action should be taken for a trade at the current price.
    pub fn evaluate_trade(&self, trade_id: &str, current_price: Decimal) -> (r: TradeAction)
        requires
            match trade_with_id(self.trades(), trade_id@, 0) {
                Some(i) => self.trades()[i].evaluated(current_price@) is Some,
                None => true,
            },
        ensures
            match trade_with_id(self.trades(), trade_id@, 0) {
                Some(i) => Some(r@) == self.trades()[i].evaluated(current_price@),
                None => r@ == Action::Hold,
            },
    {
        match self.find_trade(trade_id) {
            Some(trade) => evaluate_record(trade, current_price).unwrap(),
            None => TradeAction::Hold,
        }
    }

    /// [`TradeManager::evaluate_trade`], or nothing where a figure cannot be held.
    pub fn checked_evaluate_trade(&self, trade_id: &str, current_price: Decimal) -> (r: Option<
        TradeAction,
    >)
        ensures
            match trade_with_id(self.trades(), trade_id@, 0) {
                Some(i) => match self.trades()[i].evaluated(current_price@) {
                    Some(a) => r is Some && r->0@ == a,
                    None => r is None,
                },
                None => r is Some && r->0@ == Action::Hold,
            },
    {
        match self.find_trade(trade_id) {
            Some(trade) => {
                if evaluate_record(trade, current_price).is_none() {
                    return None;
                }
            },
            None => {},
        }
        Some(self.evaluate_trade(trade_id, current_price))
    }

    /// Executes a trade action at `now` and updates the log.
    pub fn execute_action_at(
        &mut self,
        trade_id: &str,
        action: TradeAction,
        current_price: Decimal,
        now: Timestamp,
    ) -> (r: Result<(), TradeManagerError>)
        requires
            action_defined(old(self).trades(), trade_id@, action@, current_price@),
        ensures
            action_outcome(
                old(self).book(),
                final(self).book(),
                trade_id@,
                action@,
                current_price@,
                now@,
                r,
            ),
            kept(old(self).book()) && precise(action@) && (action@ is Close ==> now@.plain())
                ==> kept(final(self).book()),
    {
        let ghost a = action@;
        let r = match action {
            TradeAction::Hold => Ok(()),
            TradeAction::TransitionPhase2 { close_quantity, new_stop_loss } => self.execute_phase2(
                trade_id,
                close_quantity,
                new_stop_loss,
                current_price,
                now,
            ),
            TradeAction::TransitionPhase3 { trailing_stop } => self.execute_phase3(
                trade_id,
                trailing_stop,
                now,
            ),
            TradeAction::CloseTrade { exit_price, reason } => self.close_trade_at(
                trade_id,
                exit_price,
                now,
            ),
        };
        proof {
            if kept(old(self).book()) && precise(a) && (a is Close ==> now@.plain()) {
                law_actions_keep_the_log(
                    old(self).book(),
                    self.book(),
                    trade_id@,
                    a,
                    current_price@,
                    now@,
                    r,
                );
            }
        }
        r
    }

    /// Executes a trade action and updates the log.
    pub fn execute_action(
        &mut self,
        trade_id: &str,
        action: TradeAction,
        current_price: Decimal,
    ) -> (r: Result<(), TradeManagerError>)
        requires
            action_defined(old(self).trades(), trade_id@, action@, current_price@),
        ensures
            exists|now: Moment|
                now.valid() && #[trigger] action_outcome(
                    old(self).book(),
                    final(self).book(),
                    trade_id@,
                    action@,
                    current_price@,
                    now,
                    r,
                ),
            !(action@ is Close) ==> forall|now: Moment|
                #[trigger] action_outcome(
                    old(self).book(),
                    final(self).book(),
                    trade_id@,
                    action@,
                    current_price@,
                    now,
                    r,
                ),
            kept(old(self).book()) && precise(action@) && !(action@ is Close) ==> kept(
                final(self).book(),
            ),
    {
        let ghost a = action@;
        let now = Timestamp::now();
        let r = self.execute_action_at(trade_id, action, current_price, now);
        proof {
            if !(a is Close) {
                assert forall|any: Moment|
                    #[trigger] action_outcome(
                        old(self).book(),
                        self.book(),
                        trade_id@,
                        a,
                        current_price@,
                        any,
                        r,
                    ) by {
                    lemma_action_time_is_free(
                        old(self).book(),
                        self.book(),
                        trade_id@,
                        a,
                        current_price@,
                        now@,
                        any,
                        r,
                    );
                }
            }
        }
        r
    }

    /// Evaluates a trade at a price and executes what comes of it. Where a figure that this takes
    /// cannot be held, nothing is changed and the result is nothing.
    pub fn step(&mut self, trade_id: &str, current_price: Decimal, now: Timestamp) -> (r: Option<
        Result<(), TradeManagerError>,
    >)
        ensures
            r is None ==> *final(self) == *old(self),
            r is Some ==> match trade_with_id(old(self).trades(), trade_id@, 0) {
                Some(i) => old(self).trades()[i].evaluated(current_price@) is Some
                    && action_outcome(
                    old(self).book(),
                    final(self).book(),
                    trade_id@,
                    old(self).trades()[i].evaluated(current_price@)->0,
                    current_price@,
                    now@,
                    r->0,
                ),
                None => *final(self) == *old(self) && r->0 is Ok,
            },
            kept(old(self).book()) && (match trade_with_id(old(self).trades(), trade_id@, 0) {
                Some(i) => old(self).trades()[i].evaluated(current_price@) matches Some(
                    Action::Close { .. },
                ),
                None => false,
            } ==> now@.plain()) ==> kept(final(self).book()),
            r is None == match trade_with_id(old(self).trades(), trade_id@, 0) {
                Some(i) => match old(self).trades()[i].evaluated(current_price@) {
                    Some(a) => !action_defined(
                        old(self).trades(),
                        trade_id@,
                        a,
                        current_price@,
                    ),
                    None => true,
                },
                None => false,
            },
    {
        let i: usize = match self.position_of(trade_id) {
            Some(i) => i,
            None => {
                return Some(Ok(()));
            },
        };
        assert(self.trades()[i as int] == self.active_trades@[i as int]@);
        let action = self.checked_evaluate_trade(trade_id, current_price)?;
        proof {
            if kept(self.book()) {
                assert(self.trades()[i as int].entry_price.s <= DECIMAL_PLACES);
                law_evaluations_are_precise(self.trades()[i as int], current_price@);
            }
        }
        if !self.action_is_defined(i, &action, current_price, Ghost(trade_id@)) {
            return None;
        }
        Some(self.execute_action_at(trade_id, action, current_price, now))
    }

    fn action_is_defined(
        &self,
        i: usize,
        action: &TradeAction,
        price: Decimal,
        id: Ghost<Seq<char>>,
    ) -> (r: bool)
        requires
            trade_with_id(self.trades(), id@, 0) == Some(i as int),
            i < self.trades().len(),
        ensures
            r == action_defined(self.trades(), id@, action@, price@),
    {
        let trade = &self.active_trades[i];
        assert(self.trades()[i as int] == self.active_trades@[i as int]@);
        match action {
            TradeAction::Hold => true,
            TradeAction::TransitionPhase2 { close_quantity, new_stop_loss } => {
                if trade.phase != TradePhase::Phase1 {
                    return true;
                }
                let mut probe = copy_record(trade);
                move_to_phase2(&mut probe, *close_quantity, *new_stop_loss, price)
            },
            TradeAction::TransitionPhase3 { trailing_stop } => true,
            TradeAction::CloseTrade { exit_price, reason } => {
                if trade.status == TradeStatus::Closed {
                    return true;
                }
                let remaining = match trade.checked_unrealized_pnl(*exit_price) {
                    Some(p) => p,
                    None => {
                        return false;
                    },
                };
                trade.realized_pnl.checked_add(&remaining).is_some()
                    && trade.checked_unrealized_pnl(exit_price.round_dp(DECIMAL_PLACES)).is_some()
            },
        }
    }

    /// Executes the move to Phase 2: stop to the new price, part of the position closed.
    fn execute_phase2(
        &mut self,
        trade_id: &str,
        close_quantity: Decimal,
        new_stop_loss: Decimal,
        current_price: Decimal,
        now: Timestamp,
    ) -> (r: Result<(), TradeManagerError>)
        requires
            match trade_with_id(old(self).trades(), trade_id@, 0) {
                None => true,
                Some(i) => old(self).trades()[i].phase != TradePhase::Phase1 || old(self).trades()[i].in_phase2(close_quantity@, new_stop_loss@, current_price@) is Some,
            },
        ensures
            phase2_outcome(
                old(self).book(),
                final(self).book(),
                trade_id@,
                close_quantity@,
                new_stop_loss@,
                current_price@,
                now@,
                r,
            ),
    {
        let i: usize = match self.position_of(trade_id) {
            Some(i) => i,
            None => {
                return Err(TradeManagerError::TradeNotFound { id: trade_id.to_owned() });
            },
        };
        let ghost before = self.trades();
        let mut trade = copy_record(&self.active_trades[i]);
        assert(before[i as int] == self.active_trades@[i as int]@);
        if trade.phase != TradePhase::Phase1 {
            return Err(
                TradeManagerError::InvalidPhaseTransition {
                    from: trade.phase.to_string(),
                    to: "Phase2".to_owned(),
                },
            );
        }
        let moved = move_to_phase2(&mut trade, close_quantity, new_stop_loss, current_price);
        assert(moved);
        let remaining_size = trade.position_size;
        let total_pnl = trade.realized_pnl;
        self.active_trades.set(i, trade);
        assert(self.trades() =~= before.update(i as int, trade@));
        match self.logger.update_record_at(
            trade_id,
            None,
            Some(total_pnl),
            None,
            Some(TradePhase::Phase2),
            Some(new_stop_loss),
            Some(remaining_size),
            now,
        ) {
            Ok(()) => Ok(()),
            Err(e) => Err(TradeManagerError::Csv(e)),
        }
    }

    /// Executes the move to Phase 3, or moves the trailing stop.
    fn execute_phase3(&mut self, trade_id: &str, trailing_stop: Decimal, now: Timestamp) -> (r:
        Result<(), TradeManagerError>)
        ensures
            phase3_outcome(
                old(self).book(),
                final(self).book(),
                trade_id@,
                trailing_stop@,
                now@,
                r,
            ),
    {
        let i: usize = match self.position_of(trade_id) {
            Some(i) => i,
            None => {
                return Err(TradeManagerError::TradeNotFound { id: trade_id.to_owned() });
            },
        };
        let ghost before = self.trades();
        let mut trade = copy_record(&self.active_trades[i]);
        assert(before[i as int] == self.active_trades@[i as int]@);
        if trade.phase != TradePhase::Phase3 {
            trade.transition_to_phase3();
        }
        trade.stop_loss = trailing_stop.round_dp(DECIMAL_PLACES);
        self.active_trades.set(i, trade);
        assert(self.trades() =~= before.update(i as int, trade@));
        match self.logger.update_record_at(
            trade_id,
            None,
            None,
            None,
            Some(TradePhase::Phase3),
            Some(trailing_stop),
            None,
            now,
        ) {
            Ok(()) => Ok(()),
            Err(e) => Err(TradeManagerError::Csv(e)),
        }
    }

    /// Closes a trade at `now` and calculates its final P&L, with what was realized before.
    pub fn close_trade_at(&mut self, trade_id: &str, exit_price: Decimal, now: Timestamp) -> (r:
        Result<(), TradeManagerError>)
        requires
            close_defined(old(self).trades(), trade_id@, exit_price@),
        ensures
            close_outcome(
                old(self).book(),
                final(self).book(),
                trade_id@,
                exit_price@,
                now@,
                r,
            ),
            kept(old(self).book()) && now@.plain() ==> kept(final(self).book()),
    {
        let i: usize = match self.position_of(trade_id) {
            Some(i) => i,
            None => {
                return Err(TradeManagerError::TradeNotFound { id: trade_id.to_owned() });
            },
        };
        let ghost before = self.trades();
        let mut trade = copy_record(&self.active_trades[i]);
        assert(before[i as int] == self.active_trades@[i as int]@);
        if trade.status == TradeStatus::Closed {
            return Err(TradeManagerError::TradeAlreadyClosed { id: trade_id.to_owned() });
        }
        let remaining_pnl = trade.unrealized_pnl(exit_price);
        let total_pnl = trade.realized_pnl.checked_add(&remaining_pnl).unwrap();
        let closed = trade.close_at(exit_price, now);
        assert(closed);
        trade.realized_pnl = total_pnl.round_dp(DECIMAL_PLACES);
        self.active_trades.set(i, trade);
        assert(self.trades() =~= before.update(i as int, trade@));
        let r = match self.logger.update_record_at(
            trade_id,
            Some(exit_price),
            Some(total_pnl),
            Some(TradeStatus::Closed),
            None,
            None,
            Some(Decimal::zero()),
            now,
        ) {
            Ok(()) => {
                self.drop_trades(trade_id);
                Ok(())
            },
            Err(e) => Err(TradeManagerError::Csv(e)),
        };
        proof {
            if kept(old(self).book()) && now@.plain() {
                law_closing_keeps_the_log(
                    old(self).book(),
                    self.book(),
                    trade_id@,
                    exit_price@,
                    now@,
                    r,
                );
            }
        }
        r
    }

    /// Closes a trade and calculates its final P&L. The reason is not kept.
    pub fn close_trade(&mut self, trade_id: &str, exit_price: Decimal, _reason: &str) -> (r: Result<
        (),
        TradeManagerError,
    >)
        requires
            close_defined(old(self).trades(), trade_id@, exit_price@),
        ensures
            exists|now: Moment|
                now.valid() && #[trigger] close_outcome(
                    old(self).book(),
                    final(self).book(),
                    trade_id@,
                    exit_price@,
                    now,
                    r,
                ) && (kept(old(self).book()) && now.plain() ==> kept(final(self).book())),
    {
        let now = Timestamp::now();
        self.close_trade_at(trade_id, exit_price, now)
    }

    /// [`TradeManager::close_trade`], or nothing and no change where a figure cannot be held.
    pub fn checked_close_trade(&mut self, trade_id: &str, exit_price: Decimal, reason: &str) -> (r:
        Option<Result<(), TradeManagerError>>)
        ensures
            r is Some == close_defined(old(self).trades(), trade_id@, exit_price@),
            r is None ==> *final(self) == *old(self),
            r is Some ==> exists|now: Moment|
                now.valid() && #[trigger] close_outcome(
                    old(self).book(),
                    final(self).book(),
                    trade_id@,
                    exit_price@,
                    now,
                    r->0,
                ) && (kept(old(self).book()) && now.plain() ==> kept(final(self).book())),
    {
        match self.position_of(trade_id) {
            Some(i) => {
                let action = TradeAction::CloseTrade { exit_price, reason: reason.to_owned() };
                if !self.action_is_defined(i, &action, exit_price, Ghost(trade_id@)) {
                    return None;
                }
            },
            None => {},
        }
        let answer = self.close_trade(trade_id, exit_price, reason);
        let result = Some(answer);
        proof {
            let now = choose|now: Moment|
                now.valid() && #[trigger] close_outcome(
                    old(self).book(),
                    self.book(),
                    trade_id@,
                    exit_price@,
                    now,
                    answer,
                ) && (kept(old(self).book()) && now.plain() ==> kept(self.book()));
            assert(close_outcome(
                old(self).book(),
                self.book(),
                trade_id@,
                exit_price@,
                now,
                result->0,
            ));
        }
        result
    }

    /// [`TradeManager::execute_action`], or nothing and no change where a figure cannot be held.
    pub fn checked_execute_action(
        &mut self,
        trade_id: &str,
        action: TradeAction,
        current_price: Decimal,
    ) -> (r: Option<Result<(), TradeManagerError>>)
        ensures
            r is Some == action_defined(old(self).trades(), trade_id@, action@, current_price@),
            r is None ==> *final(self) == *old(self),
            r is Some ==> exists|now: Moment|
                now.valid() && #[trigger] action_outcome(
                    old(self).book(),
                    final(self).book(),
                    trade_id@,
                    action@,
                    current_price@,
                    now,
                    r->0,
                ),
            r is Some && !(action@ is Close) ==> forall|now: Moment|
                #[trigger] action_outcome(
                    old(self).book(),
                    final(self).book(),
                    trade_id@,
                    action@,
                    current_price@,
                    now,
                    r->0,
                ),
            kept(old(self).book()) && precise(action@) && !(action@ is Close) ==> kept(
                final(self).book(),
            ),
    {
        match self.position_of(trade_id) {
            Some(i) => {
                if !self.action_is_defined(i, &action, current_price, Ghost(trade_id@)) {
                    return None;
                }
            },
            None => {},
        }
        let ghost done = action@;
        let answer = self.execute_action(trade_id, action, current_price);
        let result = Some(answer);
        proof {
            let now = choose|now: Moment|
                now.valid() && #[trigger] action_outcome(
                    old(self).book(),
                    self.book(),
                    trade_id@,
                    done,
                    current_price@,
                    now,
                    answer,
                );
            assert(action_outcome(
                old(self).book(),
                self.book(),
                trade_id@,
                done,
                current_price@,
                now,
                result->0,
            ));
            if !(done is Close) {
                assert forall|any: Moment|
                    #[trigger] action_outcome(
                        old(self).book(),
                        self.book(),
                        trade_id@,
                        done,
                        current_price@,
                        any,
                        result->0,
                    ) by {
                    assert(action_outcome(
                        old(self).book(),
                        self.book(),
                        trade_id@,
                        done,
                        current_price@,
                        any,
                        answer,
                    ));
                }
            }
        }
        result
    }

    /// Drops every trade with the given identifier from the active ones.
    fn drop_trades(&mut self, trade_id: &str)
        ensures
            final(self).trades() == without_id(old(self).trades(), trade_id@),
            final(self).log() == old(self).log(),
    {
        let ghost all = self.trades();
        let ghost p = |t: Record| t.id != trade_id@;
        let mut kept: Vec<TradeRecord> = Vec::new();
        let mut i: usize = 0;
        assert(all.take(0).filter(p) =~= Seq::<Record>::empty()) by {
            reveal(Seq::filter);
        }
        assert(record_views(kept@) =~= Seq::<Record>::empty());
        while i < self.active_trades.len()
            invariant
                i <= self.active_trades.len(),
                *self == *old(self),
                all == self.trades(),
                p == (|t: Record| t.id != trade_id@),
                record_views(kept@) == all.take(i as int).filter(p),
            decreases self.active_trades.len() - i,
        {
            let ghost next = all.take(i + 1);
            assert(next.drop_last() =~= all.take(i as int));
            assert(next.last() == self.active_trades@[i as int]@);
            assert(next.filter(p) == if p(next.last()) {
                next.drop_last().filter(p).push(next.last())
            } else {
                next.drop_last().filter(p)
            }) by {
                reveal(Seq::filter);
            }
            if !same_text(self.active_trades[i].id.as_str(), trade_id) {
                let ghost before = kept@;
                let copy = copy_record(&self.active_trades[i]);
                kept.push(copy);
                assert(record_views(kept@) =~= record_views(before).push(copy@));
            }
            i = i + 1;
        }
        assert(all.take(i as int) =~= all);
        self.active_trades = kept;
    }

    /// Returns all active trades.
    pub fn active_trades(&self) -> (r: &Vec<TradeRecord>)
        ensures
            record_views(r@) == self.trades(),
    {
        &self.active_trades
    }

    /// Returns the log.
    pub fn logger(&self) -> (r: &CsvLogger)
        ensures
            *r == self.log(),
    {
        &self.logger
    }
}

/// Moves a record to Phase 2; where a figure cannot be held, the result is `false`.
fn move_to_phase2(
    trade: &mut TradeRecord,
    close_quantity: Decimal,
    new_stop_loss: Decimal,
    current_price: Decimal,
) -> (r: bool)
    ensures
        r == old(trade)@.in_phase2(close_quantity@, new_stop_loss@, current_price@) is Some,
        r ==> Some(final(trade)@) == old(trade)@.in_phase2(
            close_quantity@,
            new_stop_loss@,
            current_price@,
        ),
{
    let per_unit = match trade.direction {
        TradeDirection::Long => current_price.checked_sub(&trade.entry_price),
        TradeDirection::Short => trade.entry_price.checked_sub(&current_price),
    };
    match round_opt(mul_opt(per_unit, Some(close_quantity)), DECIMAL_PLACES) {
        Some(realized_pnl) => {
            trade.transition_to_phase2(new_stop_loss);
            trade.checked_reduce_position(close_quantity, realized_pnl)
        },
        None => false,
    }
}

/// Every active trade has a line in the log.
pub open spec fn mirrored(b: Book) -> bool {
    forall|k: int|
        0 <= k < b.trades.len() ==> line_with_id(b.lines, (#[trigger] b.trades[k]).id, 1) is Some
}

/// The identifiers of a log's lines are those of another's.
pub open spec fn same_ids(a: Seq<Seq<char>>, b: Seq<Seq<char>>) -> bool {
    &&& a.len() == b.len()
    &&& forall|k: int|
        0 <= k < a.len() ==> split_on(#[trigger] a[k], ',')[0] == split_on(b[k], ',')[0]
}

proof fn lemma_same_ids(a: Seq<Seq<char>>, b: Seq<Seq<char>>, id: Seq<char>, from: int)
    requires
        same_ids(a, b),
    ensures
        line_with_id(a, id, from) == line_with_id(b, id, from),
    decreases a.len() - from,
{
    if 0 <= from < a.len() {
        assert(split_on(a[from], ',')[0] == split_on(b[from], ',')[0]);
        lemma_same_ids(a, b, id, from + 1);
    }
}

proof fn lemma_found_line(lines: Seq<Seq<char>>, id: Seq<char>, from: int)
    requires
        0 <= from,
        line_with_id(lines, id, from) is Some,
    ensures
        from <= line_with_id(lines, id, from)->0 < lines.len(),
    decreases lines.len() - from,
{
    if from < lines.len() && split_on(lines[from], ',')[0] != id {
        lemma_found_line(lines, id, from + 1);
    }
}

proof fn lemma_update_keeps_ids(
    before: Seq<Seq<char>>,
    after: Seq<Seq<char>>,
    id: Seq<char>,
    u: Update,
    now: Moment,
    r: Result<(), CsvError>,
)
    requires
        update_outcome(before, after, id, u, now, r),
    ensures
        same_ids(before, after),
{
    match line_with_id(before, id, 1) {
        Some(i) => {
            lemma_found_line(before, id, 1);
            let c = split_on(before[i], ',');
            if c.len() >= 18 {
                assert forall|k: int| 0 <= k < before.len() implies split_on(
                    #[trigger] before[k],
                    ',',
                )[0] == split_on(after[k], ',')[0] by {
                    if k == i {
                        assert(split_on(after[i], ',') == u.columns(c, now));
                    }
                }
            }
        },
        None => {},
    }
}

/// What every action keeps: each active trade has a line in the log, so no action on an active
/// trade is answered that the log does not know it.
pub proof fn law_actions_keep_the_log_complete(
    before: Book,
    after: Book,
    id: Seq<char>,
    action: Action,
    price: Dec,
    now: Moment,
    r: Result<(), TradeManagerError>,
)
    requires
        mirrored(before),
        action_defined(before.trades, id, action, price),
        action_outcome(before, after, id, action, price, now, r),
    ensures
        mirrored(after),
        r is Err && r->Err_0 is Csv ==> !(r->Err_0->Csv_0 is TradeNotFound),
{
    lemma_trade_with_id(before.trades, id, 0);
    match trade_with_id(before.trades, id, 0) {
        None => {},
        Some(i) => {
            let t = before.trades[i];
            assert(line_with_id(before.lines, t.id, 1) is Some);
            let u = match action {
                Action::Hold => empty_update(),
                Action::Phase2 { close_quantity, new_stop_loss } => {
                    let next = t.in_phase2(close_quantity, new_stop_loss, price)->0;
                    Update {
                        realized_pnl: Some(next.realized_pnl),
                        phase: Some(TradePhase::Phase2),
                        stop_loss: Some(new_stop_loss),
                        position_size: Some(next.position_size),
                        ..empty_update()
                    }
                },
                Action::Phase3 { trailing_stop } => Update {
                    phase: Some(TradePhase::Phase3),
                    stop_loss: Some(trailing_stop),
                    ..empty_update()
                },
                Action::Close { exit_price, reason } => Update {
                    exit_price: Some(exit_price),
                    realized_pnl: Some(t.total_pnl(exit_price)->0),
                    status: Some(TradeStatus::Closed),
                    position_size: Some(zero()),
                    ..empty_update()
                },
            };
            if after.lines != before.lines || after.trades != before.trades {
                lemma_update_keeps_ids(
                    before.lines,
                    after.lines,
                    id,
                    u,
                    now,
                    update_answer(r),
                );
                assert forall|k: int| 0 <= k < after.trades.len() implies line_with_id(
                    after.lines,
                    (#[trigger] after.trades[k]).id,
                    1,
                ) is Some by {
                    lemma_same_ids(before.lines, after.lines, after.trades[k].id, 1);
                    lemma_after_ids(before, after, id, action, price, now, r, i, k);
                }
            }
        },
    }
}

/// After an action on a trade, each active trade has the identifier of one that was active before.
proof fn lemma_after_ids(
    before: Book,
    after: Book,
    id: Seq<char>,
    action: Action,
    price: Dec,
    now: Moment,
    r: Result<(), TradeManagerError>,
    i: int,
    k: int,
)
    requires
        mirrored(before),
        action_defined(before.trades, id, action, price),
        action_outcome(before, after, id, action, price, now, r),
        trade_with_id(before.trades, id, 0) == Some(i),
        0 <= i < before.trades.len(),
        0 <= k < after.trades.len(),
    ensures
        line_with_id(before.lines, after.trades[k].id, 1) is Some,
{
    match action {
        Action::Close { exit_price, reason } => {
            let t = before.trades[i];
            if t.status != TradeStatus::Closed {
                let next = t.finished(exit_price, now)->0;
                let updated = before.trades.update(i, next);
                let p = |x: Record| x.id != id;
                if r is Ok {
                    lemma_filter_source(updated, p, k);
                    let j = choose|j: int|
                        0 <= j < updated.len() && updated[j] == updated.filter(p)[k];
                    assert(before.trades[j].id == updated[j].id);
                } else {
                    assert(before.trades[k].id == updated[k].id);
                }
            } else {
                assert(after.trades[k] == before.trades[k]);
            }
        },
        _ => {
            assert(after.trades.len() == before.trades.len());
            assert(after.trades[k].id == before.trades[k].id);
        },
    }
}

proof fn lemma_filter_source(s: Seq<Record>, p: spec_fn(Record) -> bool, k: int)
    requires
        0 <= k < s.filter(p).len(),
    ensures
        exists|j: int| 0 <= j < s.len() && s[j] == s.filter(p)[k],
    decreases s.len(),
{
    reveal(Seq::filter);
    if s.len() > 0 {
        let front = s.drop_last();
        if k < front.filter(p).len() {
            lemma_filter_source(front, p, k);
            let j = choose|j: int| 0 <= j < front.len() && front[j] == front.filter(p)[k];
            assert(s[j] == s.filter(p)[k]);
        } else {
            assert(s[s.len() - 1] == s.filter(p)[k]);
        }
    }
}

/// A trade that is opened with an identifier without commas is in the log, as are all others.
pub proof fn law_opening_keeps_the_log_complete(before: Book, after: Book, r: Record)
    requires
        mirrored(before),
        before.lines.len() >= 1,
        after.trades == before.trades.push(r),
        after.lines == before.lines.push(join(r.columns(), ',')),
        split_on(join(r.columns(), ','), ',') == r.columns(),
    ensures
        mirrored(after),
{
    assert forall|k: int| 0 <= k < after.trades.len() implies line_with_id(
        after.lines,
        (#[trigger] after.trades[k]).id,
        1,
    ) is Some by {
        if k < before.trades.len() {
            lemma_longer_log(before.lines, after.lines.last(), before.trades[k].id, 1);
            assert(after.lines =~= before.lines.push(after.lines.last()));
        } else {
            lemma_last_line(before.lines, after.lines.last(), r.id, 1);
            assert(after.lines =~= before.lines.push(after.lines.last()));
        }
    }
}

proof fn lemma_longer_log(lines: Seq<Seq<char>>, line: Seq<char>, id: Seq<char>, from: int)
    requires
        0 <= from,
        line_with_id(lines, id, from) is Some,
    ensures
        line_with_id(lines.push(line), id, from) is Some,
    decreases lines.len() - from,
{
    if from < lines.len() && split_on(lines[from], ',')[0] != id {
        lemma_longer_log(lines, line, id, from + 1);
    }
}

proof fn lemma_last_line(lines: Seq<Seq<char>>, line: Seq<char>, id: Seq<char>, from: int)
    requires
        0 <= from <= lines.len(),
        split_on(line, ',')[0] == id,
    ensures
        line_with_id(lines.push(line), id, from) is Some,
    decreases lines.len() - from,
{
    if from < lines.len() {
        lemma_last_line(lines, line, id, from + 1);
    }
}

/// The trades as the log keeps them.
pub open spec fn logged_all(trades: Seq<Record>) -> Seq<Record> {
    trades.map_values(|t: Record| t.logged())
}

/// No two lines after the header have one identifier.
pub open spec fn rows_distinct(lines: Seq<Seq<char>>) -> bool {
    forall|i: int, j: int|
        1 <= i < j < lines.len() ==> split_on(#[trigger] lines[i], ',')[0] != split_on(
            #[trigger] lines[j],
            ',',
        )[0]
}

/// The log gives back the active trades: its lines can be written to a file and read again, each
/// after the header holds a record of its own, and the open records are the active trades, in their
/// order and with every field.
pub open spec fn kept(b: Book) -> bool {
    &&& b.lines.len() >= 1
    &&& forall|i: int| 0 <= i < b.lines.len() ==> unbroken(#[trigger] b.lines[i])
    &&& rows_read(b.lines)
    &&& rows_distinct(b.lines)
    &&& open_records(records_of(b.lines.skip(1))) == logged_all(b.trades)
    &&& forall|k: int|
        0 <= k < b.trades.len() ==> (#[trigger] b.trades[k]).entry_price.s <= DECIMAL_PLACES
}

/// The prices of the action have no more places than the log's.
pub open spec fn precise(action: Action) -> bool {
    match action {
        Action::Phase2 { close_quantity, new_stop_loss } => new_stop_loss.s <= DECIMAL_PLACES,
        Action::Phase3 { trailing_stop } => trailing_stop.s <= DECIMAL_PLACES,
        _ => true,
    }
}

/// What comes of an evaluation has no more places than the log's.
pub proof fn law_evaluations_are_precise(r: Record, price: Dec)
    requires
        r.entry_price.s <= DECIMAL_PLACES,
        r.evaluated(price) is Some,
    ensures
        precise(r.evaluated(price)->0),
{
}

/// A file that the log was written to gives back the log, and a manager that starts from it the
/// active trades, in their order and with every field, but for the commas of a trend condition,
/// which have become spaces. No closed trade is among them.
pub proof fn law_log_gives_back_the_trades(b: Book)
    requires
        kept(b),
    ensures
        lines_of(text_of_lines(b.lines)) == b.lines,
        open_records(records_of(lines_of(text_of_lines(b.lines)).skip(1))) == logged_all(b.trades),
        forall|k: int|
            0 <= k < b.trades.len() ==> (#[trigger] b.trades[k]).status == TradeStatus::Open,
        kept(Book { trades: logged_all(b.trades), lines: b.lines }),
{
    assert forall|i: int| 0 <= i < b.lines.len() implies plain_line(#[trigger] b.lines[i]) by {
        lemma_unbroken_is_plain(b.lines[i]);
    }
    lemma_lines_round_trip(b.lines);
    let records = records_of(b.lines.skip(1));
    let p = |r: Record| r.status == TradeStatus::Open;
    let again = logged_all(b.trades);
    assert forall|k: int| 0 <= k < b.trades.len() implies (#[trigger] b.trades[k]).status
        == TradeStatus::Open by {
        broadcast use vstd::seq_lib::group_filter_ensures;

        assert(p(records.filter(p)[k]));
        assert(again[k] == b.trades[k].logged());
    }
    assert forall|k: int| 0 <= k < again.len() implies (#[trigger] logged_all(again)[k])
        == again[k] by {
        lemma_logged_twice(b.trades[k]);
    }
    assert(logged_all(again) =~= again);
}

proof fn lemma_logged_twice(r: Record)
    ensures
        r.logged().logged() == r.logged(),
{
    assert(r.logged().logged().trend_condition =~= r.logged().trend_condition);
}

proof fn lemma_logged_ids(trades: Seq<Record>, id: Seq<char>, from: int)
    requires
        0 <= from,
    ensures
        trade_with_id(logged_all(trades), id, from) == trade_with_id(trades, id, from),
    decreases trades.len() - from,
{
    if from < trades.len() {
        assert(logged_all(trades)[from].id == trades[from].id);
        if trades[from].id != id {
            lemma_logged_ids(trades, id, from + 1);
        }
    }
}

/// A trade that is alone in having its identifier is found at its place.
proof fn lemma_found_at(trades: Seq<Record>, id: Seq<char>, from: int, i: int)
    requires
        0 <= from <= i < trades.len(),
        trades[i].id == id,
        forall|k: int| from <= k < i ==> (#[trigger] trades[k]).id != id,
    ensures
        trade_with_id(trades, id, from) == Some(i),
    decreases i - from,
{
    if from < i {
        lemma_found_at(trades, id, from + 1, i);
    }
}

proof fn lemma_filter_around(s: Seq<Record>, k: int, x: Record, p: spec_fn(Record) -> bool)
    requires
        0 <= k < s.len(),
    ensures
        s.update(k, x).filter(p) == if p(x) {
            s.take(k).filter(p).push(x) + s.skip(k + 1).filter(p)
        } else {
            s.take(k).filter(p) + s.skip(k + 1).filter(p)
        },
{
    let front = s.take(k);
    let back = s.skip(k + 1);
    assert(s.update(k, x) =~= front.push(x) + back);
    Seq::filter_distributes_over_add(front.push(x), back, p);
    reveal(Seq::filter);
    assert(front.push(x).drop_last() =~= front);
}

proof fn lemma_filter_ids(s: Seq<Record>, p: spec_fn(Record) -> bool, id: Seq<char>)
    requires
        forall|k: int| 0 <= k < s.len() ==> (#[trigger] s[k]).id != id,
    ensures
        forall|k: int| 0 <= k < s.filter(p).len() ==> (#[trigger] s.filter(p)[k]).id != id,
{
    assert forall|k: int| 0 <= k < s.filter(p).len() implies (#[trigger] s.filter(p)[k]).id
        != id by {
        lemma_filter_source(s, p, k);
    }
}

/// Where an active trade stands in a log that gives back the trades: its record is the only one
/// with the identifier, and those before and after it are the other trades.
proof fn lemma_place_in_log(b: Book, id: Seq<char>, i: int, k: int)
    requires
        kept(b),
        trade_with_id(b.trades, id, 0) == Some(i),
        0 <= i < b.trades.len(),
        trade_with_id(records_of(b.lines.skip(1)), id, 0) == Some(k),
    ensures
        ({
            let records = records_of(b.lines.skip(1));
            let front = open_records(records.take(k));
            let back = open_records(records.skip(k + 1));
            &&& 0 <= k < records.len()
            &&& records[k] == b.trades[i].logged()
            &&& front == logged_all(b.trades).take(i)
            &&& back == logged_all(b.trades).skip(i + 1)
            &&& forall|m: int|
                0 <= m < b.trades.len() && m != i ==> (#[trigger] b.trades[m]).id != id
        }),
{
    let records = records_of(b.lines.skip(1));
    let p = |r: Record| r.status == TradeStatus::Open;
    let again = logged_all(b.trades);
    lemma_rows(b.lines);
    lemma_trade_with_id(records, id, 0);
    lemma_trade_with_id(b.trades, id, 0);
    lemma_logged_ids(b.trades, id, 0);
    assert(records[k].id == id);
    assert forall|m: int| 0 <= m < records.len() && m != k implies (#[trigger] records[m]).id
        != id by {
        if m < k {
            assert(split_on(b.lines[m + 1], ',')[0] != split_on(b.lines[k + 1], ',')[0]);
        } else {
            assert(split_on(b.lines[k + 1], ',')[0] != split_on(b.lines[m + 1], ',')[0]);
        }
    }
    let front = records.take(k);
    let back = records.skip(k + 1);
    lemma_filter_ids(front, p, id);
    lemma_filter_ids(back, p, id);
    lemma_filter_around(records, k, records[k], p);
    assert(records.update(k, records[k]) =~= records);
    let f = front.filter(p);
    let g = back.filter(p);
    assert(again == records.filter(p));
    assert(again[i].id == id);
    if !p(records[k]) {
        if i < f.len() {
            assert(again[i] == f[i]);
        } else {
            assert(again[i] == g[i - f.len()]);
        }
    }
    assert(again == f.push(records[k]) + g);
    assert forall|m: int| 0 <= m < f.len() implies (#[trigger] again[m]).id != id by {
        assert(again[m] == f[m]);
    }
    assert(again[f.len() as int] == records[k]);
    lemma_found_at(again, id, 0, f.len() as int);
    assert(i == f.len());
    assert(again.take(i) =~= f);
    assert(again.skip(i + 1) =~= g);
    assert forall|m: int| 0 <= m < b.trades.len() && m != i implies (#[trigger] b.trades[m]).id
        != id by {
        assert(again[m].id == b.trades[m].id);
        if m < i {
            assert(again[m] == f[m]);
        } else {
            assert(again[m] == g[m - i - 1]);
        }
    }
}

/// The record of an active trade is in a log that gives back the trades.
proof fn lemma_in_log(b: Book, id: Seq<char>, i: int)
    requires
        kept(b),
        trade_with_id(b.trades, id, 0) == Some(i),
        0 <= i < b.trades.len(),
    ensures
        trade_with_id(records_of(b.lines.skip(1)), id, 0) is Some,
{
    let records = records_of(b.lines.skip(1));
    let p = |r: Record| r.status == TradeStatus::Open;
    lemma_trade_with_id(b.trades, id, 0);
    lemma_trade_with_id(records, id, 0);
    assert(logged_all(b.trades)[i].id == id);
    lemma_filter_source(records, p, i);
}

/// What an update of an active trade's record makes of a log that gives back the trades.
proof fn lemma_update_kept(
    before: Book,
    after: Book,
    id: Seq<char>,
    i: int,
    u: Update,
    next: Record,
    now: Moment,
    r: Result<(), CsvError>,
)
    requires
        kept(before),
        trade_with_id(before.trades, id, 0) == Some(i),
        0 <= i < before.trades.len(),
        u.time_fits(now),
        update_outcome(before.lines, after.lines, id, u, now, r),
        next.id == id,
        next.entry_price == before.trades[i].entry_price,
        u.record(before.trades[i].logged(), now).status == TradeStatus::Open
            ==> u.record(before.trades[i].logged(), now) == next.logged() && after.trades
            == before.trades.update(i, next),
        u.record(before.trades[i].logged(), now).status != TradeStatus::Open && r is Ok
            ==> after.trades == without_id(before.trades.update(i, next), id),
    ensures
        r is Ok,
        kept(after),
{
    let records = records_of(before.lines.skip(1));
    let p = |x: Record| x.status == TradeStatus::Open;
    let q = |x: Record| x.id != id;
    lemma_in_log(before, id, i);
    let k = trade_with_id(records, id, 0)->0;
    lemma_place_in_log(before, id, i, k);
    law_update_changes_its_own_record(before.lines, after.lines, id, u, now, r);
    lemma_update_keeps_ids(before.lines, after.lines, id, u, now, r);
    let x = u.record(records[k], now);
    lemma_filter_around(records, k, x, p);
    let trades = before.trades;
    let again = logged_all(trades);
    lemma_rows(before.lines);
    lemma_row_of_id(before.lines, id, 1);
    assert forall|j: int| 0 <= j < after.lines.len() implies unbroken(#[trigger] after.lines[j]) by {
        assert(unbroken(before.lines[j]));
    }
    assert forall|a: int, b: int| 1 <= a < b < after.lines.len() implies split_on(
        #[trigger] after.lines[a],
        ',',
    )[0] != split_on(#[trigger] after.lines[b], ',')[0] by {
        assert(split_on(before.lines[a], ',')[0] == split_on(after.lines[a], ',')[0]);
        assert(split_on(before.lines[b], ',')[0] == split_on(after.lines[b], ',')[0]);
    }
    if x.status == TradeStatus::Open {
        assert(logged_all(after.trades) =~= again.take(i).push(x) + again.skip(i + 1));
        assert forall|m: int| 0 <= m < after.trades.len() implies (
        #[trigger] after.trades[m]).entry_price.s <= DECIMAL_PLACES by {
            assert(trades[m].entry_price.s <= DECIMAL_PLACES);
        }
    } else {
        lemma_filter_around(trades, i, next, q);
        let front = trades.take(i);
        let back = trades.skip(i + 1);
        lemma_keep_others(front, id);
        lemma_keep_others(back, id);
        assert(after.trades == front + back);
        assert(logged_all(after.trades) =~= again.take(i) + again.skip(i + 1));
        assert forall|m: int| 0 <= m < after.trades.len() implies (
        #[trigger] after.trades[m]).entry_price.s <= DECIMAL_PLACES by {
            if m < i {
                assert(after.trades[m] == trades[m]);
            } else {
                assert(after.trades[m] == trades[m + 1]);
            }
        }
    }
}

proof fn lemma_keep_others(s: Seq<Record>, id: Seq<char>)
    requires
        forall|k: int| 0 <= k < s.len() ==> (#[trigger] s[k]).id != id,
    ensures
        without_id(s, id) == s,
    decreases s.len(),
{
    reveal(Seq::filter);
    if s.len() > 0 {
        let front = s.drop_last();
        assert forall|k: int| 0 <= k < front.len() implies (#[trigger] front[k]).id != id by {
            assert(front[k] == s[k]);
        }
        lemma_keep_others(front, id);
        assert(s[s.len() - 1].id != id);
        assert(front.push(s.last()) =~= s);
    } else {
        assert(without_id(s, id) =~= s);
    }
}

/// What every action keeps: the log gives back the active trades, in their order and with every
/// field.
pub proof fn law_actions_keep_the_log(
    before: Book,
    after: Book,
    id: Seq<char>,
    action: Action,
    price: Dec,
    now: Moment,
    r: Result<(), TradeManagerError>,
)
    requires
        kept(before),
        action is Close ==> now.plain(),
        precise(action),
        action_defined(before.trades, id, action, price),
        action_outcome(before, after, id, action, price, now, r),
    ensures
        kept(after),
        !(r is Err && r->Err_0 is Csv),
{
    lemma_trade_with_id(before.trades, id, 0);
    match trade_with_id(before.trades, id, 0) {
        None => {},
        Some(i) => {
            let t = before.trades[i];
            match action {
                Action::Hold => {},
                Action::Phase2 { close_quantity, new_stop_loss } => {
                    if t.phase == TradePhase::Phase1 {
                        let next = t.in_phase2(close_quantity, new_stop_loss, price)->0;
                        let u = Update {
                            realized_pnl: Some(next.realized_pnl),
                            phase: Some(TradePhase::Phase2),
                            stop_loss: Some(new_stop_loss),
                            position_size: Some(next.position_size),
                            ..empty_update()
                        };
                        law_log_gives_back_the_trades(before);
                        lemma_update_kept(
                            before,
                            after,
                            id,
                            i,
                            u,
                            next,
                            now,
                            update_answer(r),
                        );
                    }
                },
                Action::Phase3 { trailing_stop } => {
                    let u = Update {
                        phase: Some(TradePhase::Phase3),
                        stop_loss: Some(trailing_stop),
                        ..empty_update()
                    };
                    law_log_gives_back_the_trades(before);
                    lemma_update_kept(
                        before,
                        after,
                        id,
                        i,
                        u,
                        t.in_phase3(trailing_stop),
                        now,
                        update_answer(r),
                    );
                },
                Action::Close { exit_price, reason } => {
                    law_closing_keeps_the_log(before, after, id, exit_price, now, r);
                },
            }
        },
    }
}

/// Closing a trade keeps that the log gives back the active trades.
pub proof fn law_closing_keeps_the_log(
    before: Book,
    after: Book,
    id: Seq<char>,
    exit_price: Dec,
    now: Moment,
    r: Result<(), TradeManagerError>,
)
    requires
        kept(before),
        now.plain(),
        close_defined(before.trades, id, exit_price),
        close_outcome(before, after, id, exit_price, now, r),
    ensures
        kept(after),
        !(r is Err && r->Err_0 is Csv),
{
    lemma_trade_with_id(before.trades, id, 0);
    match trade_with_id(before.trades, id, 0) {
        None => {},
        Some(i) => {
            let t = before.trades[i];
            if t.status != TradeStatus::Closed {
                let u = Update {
                    exit_price: Some(exit_price),
                    realized_pnl: Some(t.total_pnl(exit_price)->0),
                    status: Some(TradeStatus::Closed),
                    position_size: Some(zero()),
                    ..empty_update()
                };
                lemma_update_kept(
                    before,
                    after,
                    id,
                    i,
                    u,
                    t.finished(exit_price, now)->0,
                    now,
                    update_answer(r),
                );
            }
        },
    }
}

/// Opening a trade whose identifier is not in the log keeps that the log gives back the active
/// trades.
pub proof fn law_opening_keeps_the_log(before: Book, after: Book, r: Record)
    requires
        kept(before),
        r.status == TradeStatus::Open,
        r.entry_price.s <= DECIMAL_PLACES,
        line_with_id(before.lines, r.id, 1) is None,
        after.trades == before.trades.push(r),
        after.lines.len() == before.lines.len() + 1,
        after.lines == before.lines.push(after.lines.last()),
        record_of_line(after.lines.last()) == Some(r.logged()),
        unbroken(after.lines.last()),
    ensures
        kept(after),
{
    let n = before.lines.len() as int;
    let line = after.lines.last();
    let p = |x: Record| x.status == TradeStatus::Open;
    let rows = before.lines.skip(1);
    assert(after.lines.skip(1) =~= rows.push(line));
    assert(rows.push(line).drop_last() =~= rows);
    let records = records_of(rows);
    let more = records.push(r.logged());
    assert(more.drop_last() =~= records);
    reveal(Seq::filter);
    assert(more.filter(p) == records.filter(p).push(r.logged()));
    assert(logged_all(after.trades) =~= logged_all(before.trades).push(r.logged()));
    lemma_rows(before.lines);
    lemma_row_of_id(before.lines, r.id, 1);
    lemma_trade_with_id(records, r.id, 0);
    assert forall|i: int, j: int| 1 <= i < j < after.lines.len() implies split_on(
        #[trigger] after.lines[i],
        ',',
    )[0] != split_on(#[trigger] after.lines[j], ',')[0] by {
        assert(after.lines[i] == before.lines[i]);
        if j < n {
            assert(after.lines[j] == before.lines[j]);
        } else {
            assert(records[i - 1].id != r.id);
        }
    }
    assert forall|j: int| 1 <= j < after.lines.len() implies record_of_line(
        #[trigger] after.lines[j],
    ) is Some by {
        if j < n {
            assert(after.lines[j] == before.lines[j]);
        }
    }
    assert forall|j: int| 0 <= j < after.lines.len() implies unbroken(#[trigger] after.lines[j]) by {
        if j < n {
            assert(after.lines[j] == before.lines[j]);
        }
    }
    assert forall|m: int| 0 <= m < after.trades.len() implies (
    #[trigger] after.trades[m]).entry_price.s <= DECIMAL_PLACES by {
        if m < before.trades.len() {
            assert(after.trades[m] == before.trades[m]);
        }
    }
}

/// A partial close loses nothing: what remains and what was closed are together what there was,
/// wherever the figures fit as they are.
pub proof fn law_partial_close_keeps_the_total(r: Record, amount: Dec, realized: Dec)
    requires
        r.reduced(amount, realized) is Some,
        r.position_size.valid(),
        amount.valid(),
        r.position_size.s <= DECIMAL_PLACES,
        amount.s <= DECIMAL_PLACES,
        aligned_sum(r.position_size, amount.negated()).valid(),
    ensures
        r.reduced(amount, realized)->0.position_size.units() + amount.units()
            == r.position_size.units(),
{
    law_difference_is_exact(r.position_size, amount);
}

/// An open trade at a price, by value: a long one is closed at its stop where the price has fallen to
/// it, and at its target where the price has risen to it; a short one the other way round. The stop
/// comes first. Between the two nothing is closed.
pub proof fn law_exits_by_value(r: Record, price: Dec)
    requires
        r.status == TradeStatus::Open,
        r.evaluated(price) is Some,
    ensures
        r.direction == TradeDirection::Long && price.units() <= r.stop_loss.units() ==> r.evaluated(
            price,
        )->0 == (Action::Close { exit_price: r.stop_loss, reason: "Stop Loss"@ }),
        r.direction == TradeDirection::Short && price.units() >= r.stop_loss.units() ==> r.evaluated(
            price,
        )->0 == (Action::Close { exit_price: r.stop_loss, reason: "Stop Loss"@ }),
        r.direction == TradeDirection::Long && price.units() > r.stop_loss.units() && price.units()
            >= r.take_profit.units() ==> r.evaluated(price)->0 == (Action::Close {
            exit_price: r.take_profit,
            reason: "Take Profit"@,
        }),
        r.direction == TradeDirection::Short && price.units() < r.stop_loss.units() && price.units()
            <= r.take_profit.units() ==> r.evaluated(price)->0 == (Action::Close {
            exit_price: r.take_profit,
            reason: "Take Profit"@,
        }),
        r.direction == TradeDirection::Long && r.stop_loss.units() < price.units()
            < r.take_profit.units() ==> !(r.evaluated(price)->0 is Close),
        r.direction == TradeDirection::Short && r.take_profit.units() < price.units()
            < r.stop_loss.units() ==> !(r.evaluated(price)->0 is Close),
{
}

/// The price lies strictly between the stop and the target of a trade.
pub open spec fn between_exits(r: Record, price: Dec) -> bool {
    if r.direction == TradeDirection::Long {
        r.stop_loss.units() < price.units() < r.take_profit.units()
    } else {
        r.take_profit.units() < price.units() < r.stop_loss.units()
    }
}

/// The phases by the multiple of the risk, in units of the smallest scale: from 2.5 on the trade
/// trails, in its first phase it is moved to breakeven from 1.5 on, and otherwise it is left alone.
pub proof fn law_phases_by_multiple(r: Record, price: Dec)
    requires
        r.status == TradeStatus::Open,
        r.evaluated(price) is Some,
        between_exits(r, price),
    ensures
        ({
            let m = r.r_multiple(price)->0.units();
            let action = r.evaluated(price)->0;
            &&& r.phase != TradePhase::Phase3 && m >= 25 * pow10(27) ==> action is Phase3
            &&& r.phase == TradePhase::Phase1 && 15 * pow10(27) <= m < 25 * pow10(27)
                ==> action is Phase2
            &&& r.phase == TradePhase::Phase1 && m < 15 * pow10(27) ==> action is Hold
            &&& r.phase == TradePhase::Phase2 && m < 25 * pow10(27) ==> action is Hold
            &&& r.phase == TradePhase::Phase3 ==> action is Hold || action is Phase3
        }),
{
    assert(phase2_r().units() == 15 * pow10(27));
    assert(phase3_r().units() == 25 * pow10(27));
    lemma_pow10_positive(27);
}

/// The phases by the price: once a price between stop and target has gained two and a half risks on
/// the entry the trade trails, and in its first phase it is moved to breakeven once it has gained one
/// and a half; as long as the gain is short of that by the last place of the log, it is left alone.
pub proof fn law_phases_by_gain(r: Record, price: Dec)
    requires
        r.status == TradeStatus::Open,
        r.evaluated(price) is Some,
        between_exits(r, price),
        comparable(r, price),
        r.risk_per_unit.valid(),
        r.risk_per_unit.units() > 0,
    ensures
        ({
            let risk = r.risk_per_unit.units();
            let won = gain(r, price);
            let action = r.evaluated(price)->0;
            &&& r.phase != TradePhase::Phase3 && 10 * won >= 25 * risk ==> action is Phase3
            &&& r.phase == TradePhase::Phase1 && 10 * won >= 15 * risk ==> action is Phase2
                || action is Phase3
            &&& r.phase == TradePhase::Phase1 && won * pow10(28) < risk * (15 * pow10(27) - pow10(
                20,
            )) ==> action is Hold
            &&& r.phase != TradePhase::Phase3 && won * pow10(28) < risk * (25 * pow10(27) - pow10(
                20,
            )) ==> !(action is Phase3)
        }),
{
    law_phases_by_multiple(r, price);
    let t = pow10(27);
    let p = pow10(20);
    let g = pow10(7);
    lemma_pow10_positive(20);
    lemma_pow10_positive(7);
    lemma_pow10_add(7, 20);
    assert(t == g * p);
    assert(pow10(28) == 10 * t);
    lemma_whole_multiple(15 * g, p);
    lemma_whole_multiple(25 * g, p);
    assert(15 * t == (15 * g) * p && 25 * t == (25 * g) * p) by (nonlinear_arith)
        requires
            t == g * p,
    ;
    assert(t >= p) by (nonlinear_arith)
        requires
            t == g * p,
            g >= 1,
            p >= 1,
    ;
    law_multiple_by_value(r, price, 15 * t);
    law_multiple_by_value(r, price, 25 * t);
    let won = gain(r, price);
    let risk = r.risk_per_unit.units();
    if 10 * won >= 25 * risk {
        assert(won * (10 * t) >= risk * (25 * t)) by (nonlinear_arith)
            requires
                10 * won >= 25 * risk,
                t >= 1,
        ;
    }
    if 10 * won >= 15 * risk {
        assert(won * (10 * t) >= risk * (15 * t)) by (nonlinear_arith)
            requires
                10 * won >= 15 * risk,
                t >= 1,
        ;
    }
}

proof fn lemma_whole_multiple(k: int, p: int)
    requires
        p >= 1,
    ensures
        (k * p) % p == 0,
{
    assert((k * p) % p == 0) by (nonlinear_arith)
        requires
            p >= 1,
    ;
}

/// The figures of a trailing stop fit: the range doubled, and the price with that much taken off or
/// added.
pub open spec fn trail_fits(r: Record, price: Dec) -> bool {
    let offset = product(r.atr_value, Dec { m: 20, s: 1 })->0.rounded(8);
    &&& short(r.atr_value) && short(price)
    &&& (Dec { m: r.atr_value.m * 20, s: r.atr_value.s + 1 }).valid()
    &&& aligned_sum(price, offset).valid() && aligned_sum(price, offset.negated()).valid()
    &&& offset.valid()
}

/// In Phase 3 the stop follows the price, and only in the trade's favour: an evaluation that moves the
/// stop of a long trade gives one that is strictly higher, and of a short trade one that is strictly
/// lower. Where the price less twice the average true range lies above the stop of a long trade, or
/// the price and twice the range below that of a short one, that is the new stop; where it does not,
/// the stop stays.
pub proof fn law_trailing_stop_follows(r: Record, price: Dec)
    requires
        r.status == TradeStatus::Open,
        r.phase == TradePhase::Phase3,
        r.evaluated(price) is Some,
        between_exits(r, price),
    ensures
        r.evaluated(price)->0 matches Action::Phase3 { trailing_stop } ==> {
            &&& r.direction == TradeDirection::Long ==> trailing_stop.units() > r.stop_loss.units()
            &&& r.direction == TradeDirection::Short ==> trailing_stop.units() < r.stop_loss.units()
        },
        trail_fits(r, price) && r.direction == TradeDirection::Long && price.units() - 2
            * r.atr_value.units() > r.stop_loss.units() ==> {
            &&& r.evaluated(price)->0 matches Action::Phase3 { trailing_stop }
                && trailing_stop.units() == price.units() - 2 * r.atr_value.units()
        },
        trail_fits(r, price) && r.direction == TradeDirection::Short && price.units() + 2
            * r.atr_value.units() < r.stop_loss.units() ==> {
            &&& r.evaluated(price)->0 matches Action::Phase3 { trailing_stop }
                && trailing_stop.units() == price.units() + 2 * r.atr_value.units()
        },
        trail_fits(r, price) && r.direction == TradeDirection::Long && price.units() - 2
            * r.atr_value.units() <= r.stop_loss.units() ==> r.evaluated(price)->0 is Hold,
        trail_fits(r, price) && r.direction == TradeDirection::Short && price.units() + 2
            * r.atr_value.units() >= r.stop_loss.units() ==> r.evaluated(price)->0 is Hold,
{
    if trail_fits(r, price) {
        law_trailing_stop_by_value(r, price);
    }
}

/// The first trailing stop lies twice the average true range behind the price, and the move to Phase
/// 2 brings the stop to the entry and closes a third (33 hundredths) of the position.
pub proof fn law_new_phases_by_value(r: Record, price: Dec)
    requires
        r.status == TradeStatus::Open,
        r.phase != TradePhase::Phase3,
        r.evaluated(price) is Some,
    ensures
        r.evaluated(price)->0 matches Action::Phase3 { trailing_stop } ==> trail_fits(r, price)
            ==> trailing_stop.units() == if r.direction == TradeDirection::Long {
            price.units() - 2 * r.atr_value.units()
        } else {
            price.units() + 2 * r.atr_value.units()
        },
        r.evaluated(price)->0 matches Action::Phase2 { close_quantity, new_stop_loss } ==> {
            &&& r.phase == TradePhase::Phase1
            &&& new_stop_loss == r.entry_price
            &&& r.position_size.valid() && r.position_size.s <= 6 && (Dec {
                m: r.position_size.m * 33,
                s: r.position_size.s + 2,
            }).valid() ==> 100 * close_quantity.units() == 33 * r.position_size.units()
        },
{
    if trail_fits(r, price) {
        law_trailing_stop_by_value(r, price);
    }
    if r.position_size.valid() && r.position_size.s <= 6 && (Dec {
        m: r.position_size.m * 33,
        s: r.position_size.s + 2,
    }).valid() {
        law_product_is_exact(r.position_size, phase2_share());
        let q = product(r.position_size, phase2_share())->0;
        let w = pow10(26);
        lemma_pow10_positive(26);
        assert(pow10(27) == 10 * w);
        assert(pow10(28) == 10 * pow10(27));
        assert(phase2_share().units() == 33 * w);
        assert(100 * q.units() == 33 * r.position_size.units()) by (nonlinear_arith)
            requires
                q.units() * (100 * w) == r.position_size.units() * (33 * w),
                w >= 1,
        ;
        assert(q.s <= 8);
    }
}

/// A trade that is not open is left alone at every price.
pub proof fn law_closed_trade_is_left_alone(r: Record, price: Dec)
    requires
        r.status == TradeStatus::Closed,
    ensures
        r.evaluated(price) == Some(Action::Hold),
{
}

/// A long and a short trade are mirror images: where every price is turned about zero, the short trade
/// is closed at its stop or target, or held, exactly where the long one is.
pub proof fn law_short_mirrors_long(r: Record, s: Record, price: Dec, mirrored_price: Dec)
    requires
        r.direction == TradeDirection::Long,
        s.direction == TradeDirection::Short,
        r.status == TradeStatus::Open,
        s.status == TradeStatus::Open,
        s.stop_loss.units() == -r.stop_loss.units(),
        s.take_profit.units() == -r.take_profit.units(),
        mirrored_price.units() == -price.units(),
        r.evaluated(price) is Some,
        s.evaluated(mirrored_price) is Some,
    ensures
        (r.evaluated(price)->0 is Close) == (s.evaluated(mirrored_price)->0 is Close),
        (r.evaluated(price)->0 is Close) ==> r.evaluated(price)->0->Close_reason == s.evaluated(
            mirrored_price,
        )->0->Close_reason,
{
}

/// What an action makes of the trade that it is for, by value: the move to Phase 2 takes the closed
/// part off the size, adds its profit at the price, to eight places, and sets the stop; the move to
/// Phase 3 sets the stop and nothing else.
pub proof fn law_actions_by_value(r: Record, quantity: Dec, stop: Dec, price: Dec)
    requires
        comparable(r, price),
        short(r.position_size),
        short(quantity),
        short(stop),
        r.realized_pnl.valid(),
        r.in_phase2(quantity, stop, price) is Some,
        aligned_sum(r.position_size, quantity.negated()).valid(),
    ensures
        ({
            let after = r.in_phase2(quantity, stop, price)->0;
            &&& after.phase == TradePhase::Phase2
            &&& after.stop_loss == stop
            &&& after.position_size.units() == r.position_size.units() - quantity.units()
            &&& exists|x: int, y: int|
                {
                    &&& #[trigger] rounds_to(gain(r, price) * quantity.units(), pow10(28), x)
                    &&& 2 * (y - x) <= pow10(20) && 2 * (x - y) <= pow10(20)
                    &&& #[trigger] made(r, after, y)
                }
            &&& after == (Record {
                phase: TradePhase::Phase2,
                stop_loss: stop,
                position_size: after.position_size,
                realized_pnl: after.realized_pnl,
                ..r
            })
        }),
        r.in_phase3(stop) == (Record { phase: TradePhase::Phase3, stop_loss: stop, ..r }),
{
    law_unit_profit_by_value(r, price);
    let a = r.pnl_per_unit(price)->0;
    law_product_is_rounded(a, quantity);
    let x = product(a, quantity)->0;
    law_rounding_is_nearest(x, 8);
    let y = x.rounded(8);
    law_difference_is_exact(r.position_size, quantity);
    let after = r.in_phase2(quantity, stop, price)->0;
    assert(rounds_to(gain(r, price) * quantity.units(), pow10(28), x.units()));
    assert(y.rounded(8) == y);
    if aligned_sum(r.realized_pnl, y).valid() {
        lemma_rounded_valid(x);
        law_sum_is_exact(r.realized_pnl, y);
    }
    assert(made(r, after, y.units())) by {
        assert(sum(r.realized_pnl, y) == Some(after.realized_pnl));
    }
}

/// A rounded number is within the limits.
proof fn lemma_rounded_valid(d: Dec)
    requires
        d.valid(),
    ensures
        d.rounded(8).valid(),
{
    law_rounding_is_nearest(d, 8);
    if d.s > 8 {
        let e = pow10((d.s - 8) as nat);
        lemma_pow10_add(1, (d.s - 9) as nat);
        lemma_pow10_positive((d.s - 9) as nat);
        reveal_with_fuel(pow10, 2);
        assert(e >= 10);
        let u = abs_int(d.m);
        assert(u / e <= u / 10) by (nonlinear_arith)
            requires
                u >= 0,
                e >= 10,
        ;
    }
}

/// The profit of a trade has grown by `y` units, wherever the sum fits as it is.
pub open spec fn made(before: Record, after: Record, y: int) -> bool {
    exists|d: Dec|
        {
            &&& d.units() == y
            &&& Some(after.realized_pnl) == #[trigger] sum(before.realized_pnl, d)
            &&& aligned_sum(before.realized_pnl, d).valid() ==> after.realized_pnl.units()
                == before.realized_pnl.units() + y
        }
}

/// A trade that is closed for good has made what it had made and the profit of what was left at the
/// exit price, to eight places, and it ends at that moment and price.
pub proof fn law_finish_by_value(r: Record, exit: Dec, now: Moment)
    requires
        short(exit),
        r.realized_pnl.valid(),
        r.finished(exit, now) is Some,
        r.pnl(exit)->0.valid(),
        aligned_sum(r.realized_pnl, r.pnl(exit)->0).valid(),
    ensures
        ({
            let after = r.finished(exit, now)->0;
            let total = r.realized_pnl.units() + r.pnl(exit)->0.units();
            &&& after.status == TradeStatus::Closed
            &&& after.exit_time == Some(now)
            &&& after.exit_price == Some(exit)
            &&& r.total_pnl(exit) is Some && r.total_pnl(exit)->0.units() == total
            &&& 2 * (after.realized_pnl.units() - total) <= pow10(20)
            &&& 2 * (total - after.realized_pnl.units()) <= pow10(20)
            &&& after.id == r.id && after.symbol == r.symbol && after.direction == r.direction
            &&& after.entry_price == r.entry_price && after.entry_time == r.entry_time
        }),
{
    law_sum_is_exact(r.realized_pnl, r.pnl(exit)->0);
    let t = r.total_pnl(exit)->0;
    law_rounding_is_nearest(t, 8);
}

/// A trade that was closed stands in the log as closed: with the moment and the price of its end,
/// what it made altogether, and nothing left of it. No other record of the log has changed.
pub proof fn law_closed_trade_is_logged(
    before: Book,
    after: Book,
    id: Seq<char>,
    i: int,
    exit: Dec,
    now: Moment,
    r: Result<(), TradeManagerError>,
)
    requires
        kept(before),
        now.plain(),
        close_defined(before.trades, id, exit),
        close_outcome(before, after, id, exit, now, r),
        trade_with_id(before.trades, id, 0) == Some(i),
    ensures
        r is Ok,
        ({
            let old_records = records_of(before.lines.skip(1));
            let new_records = records_of(after.lines.skip(1));
            let trade = before.trades[i];
            exists|k: int|
                {
                    &&& 0 <= k < old_records.len()
                    &&& (#[trigger] old_records[k]) == trade.logged()
                    &&& new_records == old_records.update(k, new_records[k])
                    &&& new_records[k].id == id
                    &&& new_records[k].status == TradeStatus::Closed
                    &&& trade.exit_time is None ==> new_records[k].exit_time == Some(now)
                    &&& new_records[k].exit_price == Some(exit)
                    &&& Some(new_records[k].realized_pnl) == trade.total_pnl(exit)
                    &&& new_records[k].position_size.m == 0
                    &&& new_records[k].entry_price == trade.entry_price
                    &&& new_records[k].stop_loss == trade.stop_loss
                    &&& new_records[k].phase == trade.phase
                }
        }),
{
    lemma_trade_with_id(before.trades, id, 0);
    law_log_gives_back_the_trades(before);
    let t = before.trades[i];
    assert(t.status == TradeStatus::Open);
    let u = Update {
        exit_price: Some(exit),
        realized_pnl: Some(t.total_pnl(exit)->0),
        status: Some(TradeStatus::Closed),
        position_size: Some(zero()),
        ..empty_update()
    };
    lemma_in_log(before, id, i);
    let k = trade_with_id(records_of(before.lines.skip(1)), id, 0)->0;
    lemma_place_in_log(before, id, i, k);
    law_update_changes_its_own_record(before.lines, after.lines, id, u, now, update_answer(r));
    assert(records_of(before.lines.skip(1))[k] == t.logged());
}

/// An evaluation is owed wherever its figures fit: every open trade whose gain and, where it has a risk,
/// whose multiple can be held is judged, and so is every trade that is not open.
pub proof fn law_evaluation_is_owed(r: Record, price: Dec)
    requires
        comparable(r, price),
        r.risk_per_unit.m == 0 || quotient(r.pnl_per_unit(price)->0, r.risk_per_unit) is Some,
        trail_fits(r, price),
        r.position_size.valid(),
        (Dec { m: r.position_size.m * 33, s: r.position_size.s + 2 }).valid(),
    ensures
        r.evaluated(price) is Some,
{
    law_unit_profit_by_value(r, price);
    law_trailing_stop_by_value(r, price);
    law_product_is_exact(r.position_size, phase2_share());
}

/// A trade can be closed, and moved to its second phase, wherever the figures that this takes can be
/// held: the profits, their sums, and what is left of the size.
pub proof fn law_actions_are_owed(r: Record, quantity: Dec, stop: Dec, price: Dec, now: Moment)
    requires
        comparable(r, price),
        short(price),
        product(r.pnl_per_unit(price)->0, r.position_size) is Some,
        product(r.pnl_per_unit(price)->0, quantity) is Some,
        ({
            let x = product(r.pnl_per_unit(price)->0, r.position_size)->0.rounded(8);
            let y = product(r.pnl_per_unit(price)->0, quantity)->0.rounded(8);
            sum(r.realized_pnl, x) is Some && sum(r.realized_pnl, y) is Some
        }),
        difference(r.position_size, quantity) is Some,
    ensures
        r.in_phase2(quantity, stop, price) is Some,
        r.finished(price, now) is Some,
{
    law_unit_profit_by_value(r, price);
    let y = product(r.pnl_per_unit(price)->0, quantity)->0.rounded(8);
    law_rounding_is_nearest(product(r.pnl_per_unit(price)->0, quantity)->0, 8);
    assert(y.rounded(8) == y);
}

} // verus!
