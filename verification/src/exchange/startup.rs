//! What the engine needs at its start: the trading rules of the symbols, and the positions that
//! were open when it stopped.
use crate::data::trade_record::{Record, TradeDirection, TradePhase, TradeRecord};
use crate::decimal::{difference, opt_view, parsed, quotient_of, zero, Dec, Decimal};
use crate::exchange::config;
use crate::exchange::engine::{ExecutionEngine, Positions, SymbolFilters};
use crate::exchange::replies::{is_stop_loss, is_take_profit};
use crate::exchange::trade_manager::{
    fresh_position, Managed, ManagedPosition, Management, TradeState,
};
use crate::json::{
    elements, get_member_or, get_string, get_u64, json_elements, json_string, json_u64, member_or,
    member_string, member_u64, opt_text, string, unsigned,
};
use crate::symbol_map::SymbolMap;
use crate::text::{contains_text, same_text, views};
use crate::types::position::Position;
use vstd::prelude::*;

verus! {

/// A trading rule in the exchange's information, with its numbers as text.
#[derive(Clone, Debug)]
pub enum RuleText {
    LotSize { step_size: String, min_qty: String },
    PriceFilter { tick_size: String },
    Other,
}

/// A symbol in the exchange's information.
#[derive(Clone, Debug)]
pub struct SymbolInfo {
    pub symbol: String,
    pub filters: Vec<RuleText>,
}

/// The model of a symbol's trading rules.
pub struct Rules {
    pub step_size: Dec,
    pub tick_size: Dec,
    pub min_qty: Dec,
}

impl View for SymbolFilters {
    type V = Rules;

    open spec fn view(&self) -> Rules {
        Rules { step_size: self.step_size@, tick_size: self.tick_size@, min_qty: self.min_qty@ }
    }
}

/// Step, tick and minimum quantity so far.
pub struct Found {
    pub step_size: Option<Dec>,
    pub tick_size: Option<Dec>,
    pub min_qty: Option<Dec>,
}

/// What the first `n` rules of a list say. The last rule of a kind counts.
pub open spec fn found_rules(rules: Seq<RuleText>, n: nat) -> Found
    decreases n,
{
    if n == 0 {
        Found { step_size: None, tick_size: None, min_qty: None }
    } else {
        let before = found_rules(rules, (n - 1) as nat);
        match rules[n - 1] {
            RuleText::LotSize { step_size, min_qty } => Found {
                step_size: parsed(step_size@),
                min_qty: parsed(min_qty@),
                ..before
            },
            RuleText::PriceFilter { tick_size } => Found {
                tick_size: parsed(tick_size@),
                ..before
            },
            RuleText::Other => before,
        }
    }
}

/// The rules of a symbol, or what is missing. A missing minimum is zero.
pub open spec fn rules_of(info: SymbolInfo) -> Result<Rules, Seq<char>> {
    let f = found_rules(info.filters@, info.filters@.len());
    match (f.step_size, f.tick_size) {
        (None, _) => Err("[ENGINE] LOT_SIZE.stepSize missing for "@ + info.symbol@),
        (_, None) => Err("[ENGINE] PRICE_FILTER.tickSize missing for "@ + info.symbol@),
        (Some(step_size), Some(tick_size)) => Ok(
            Rules {
                step_size,
                tick_size,
                min_qty: if f.min_qty is Some {
                    f.min_qty->0
                } else {
                    zero()
                },
            },
        ),
    }
}

/// The rules of the wanted symbols among the first `n`, or what is missing for the first of them
/// that is not complete.
pub open spec fn loaded(wanted: Seq<Seq<char>>, info: Seq<SymbolInfo>, n: nat) -> Result<
    Map<Seq<char>, Rules>,
    Seq<char>,
>
    decreases n,
{
    if n == 0 {
        Ok(Map::empty())
    } else {
        match loaded(wanted, info, (n - 1) as nat) {
            Err(e) => Err(e),
            Ok(m) => if !wanted.contains(info[n - 1].symbol@) {
                Ok(m)
            } else {
                match rules_of(info[n - 1]) {
                    Ok(r) => Ok(m.insert(info[n - 1].symbol@, r)),
                    Err(e) => Err(e),
                }
            },
        }
    }
}

/// The trading rules as models.
pub open spec fn rule_models(m: Map<Seq<char>, SymbolFilters>) -> Map<Seq<char>, Rules> {
    m.map_values(|f: SymbolFilters| f@)
}

/// The trading rules of a symbol, or what is missing.
pub fn symbol_rules(info: &SymbolInfo) -> (r: Result<SymbolFilters, String>)
    ensures
        match rules_of(*info) {
            Ok(m) => r is Ok && (r->Ok_0)@ == m,
            Err(e) => r is Err && (r->Err_0)@ == e,
        },
{
    let mut step_size: Option<Decimal> = None;
    let mut tick_size: Option<Decimal> = None;
    let mut min_qty: Option<Decimal> = None;
    let mut i: usize = 0;
    while i < info.filters.len()
        invariant
            i <= info.filters.len(),
            found_rules(info.filters@, i as nat) == (Found {
                step_size: opt_view(step_size),
                tick_size: opt_view(tick_size),
                min_qty: opt_view(min_qty),
            }),
        decreases info.filters.len() - i,
    {
        match &info.filters[i] {
            RuleText::LotSize { step_size: s, min_qty: m } => {
                step_size = Decimal::parse(s.as_str());
                min_qty = Decimal::parse(m.as_str());
            },
            RuleText::PriceFilter { tick_size: t } => {
                tick_size = Decimal::parse(t.as_str());
            },
            RuleText::Other => {},
        }
        i = i + 1;
    }
    let symbol = info.symbol.as_str();
    match (step_size, tick_size) {
        (None, _) => Err("[ENGINE] LOT_SIZE.stepSize missing for ".to_owned().concat(symbol)),
        (_, None) => Err("[ENGINE] PRICE_FILTER.tickSize missing for ".to_owned().concat(symbol)),
        (Some(step_size), Some(tick_size)) => {
            let min_qty = match min_qty {
                Some(m) => m,
                None => Decimal::zero(),
            };
            Ok(SymbolFilters { step_size, tick_size, min_qty })
        },
    }
}

/// Loads the trading rules of the wanted symbols from the exchange's information. Where one of
/// them is not complete, the result says what is missing.
pub fn load_filters(wanted: &Vec<String>, info: &Vec<SymbolInfo>) -> (r: Result<
    SymbolMap<SymbolFilters>,
    String,
>)
    ensures
        match loaded(views(wanted@), info@, info@.len()) {
            Ok(m) => r is Ok && rule_models((r->Ok_0)@) == m,
            Err(e) => r is Err && (r->Err_0)@ == e,
        },
{
    let mut filters: SymbolMap<SymbolFilters> = SymbolMap::new();
    let mut i: usize = 0;
    assert(rule_models(filters@) =~= Map::<Seq<char>, Rules>::empty());
    while i < info.len()
        invariant
            i <= info.len(),
            loaded(views(wanted@), info@, i as nat) == Ok::<Map<Seq<char>, Rules>, Seq<char>>(
                rule_models(filters@),
            ),
        decreases info.len() - i,
    {
        if contains_text(wanted, info[i].symbol.as_str()) {
            match symbol_rules(&info[i]) {
                Ok(f) => {
                    let ghost before = filters@;
                    filters.insert(info[i].symbol.as_str(), f);
                    assert(rule_models(filters@) =~= rule_models(before).insert(
                        info@[i as int].symbol@,
                        f@,
                    ));
                },
                Err(e) => {
                    proof {
                        lemma_loaded_stops(views(wanted@), info@, (i + 1) as nat, e@);
                    }
                    return Err(e);
                },
            }
        }
        i = i + 1;
    }
    Ok(filters)
}

/// What is missing for one symbol is the answer for the whole list.
proof fn lemma_loaded_stops(wanted: Seq<Seq<char>>, info: Seq<SymbolInfo>, n: nat, e: Seq<char>)
    requires
        n <= info.len(),
        loaded(wanted, info, n) == Err::<Map<Seq<char>, Rules>, Seq<char>>(e),
    ensures
        loaded(wanted, info, info.len()) == Err::<Map<Seq<char>, Rules>, Seq<char>>(e),
    decreases info.len() - n,
{
    if n < info.len() {
        lemma_loaded_stops(wanted, info, n + 1, e);
    }
}

/// An open order of the exchange, as far as its answer tells.
#[derive(Clone, Debug)]
pub struct OpenOrder {
    pub list_id: Option<u64>,
    pub order_id: Option<u64>,
    pub kind: Option<String>,
}

/// The model of an open order.
pub struct OrderText {
    pub list_id: Option<u64>,
    pub order_id: Option<u64>,
    pub kind: Option<Seq<char>>,
}

impl View for OpenOrder {
    type V = OrderText;

    open spec fn view(&self) -> OrderText {
        OrderText { list_id: self.list_id, order_id: self.order_id, kind: opt_text(self.kind) }
    }
}

/// The models of a list of orders.
pub open spec fn order_views(v: Seq<OpenOrder>) -> Seq<OrderText> {
    v.map_values(|o: OpenOrder| o@)
}

/// The model of an optional list of orders.
pub open spec fn opt_orders(v: Option<Vec<OpenOrder>>) -> Option<Seq<OrderText>> {
    match v {
        Some(o) => Some(order_views(o@)),
        None => None,
    }
}

/// The position with the identifiers of the order list that one open order belongs to.
pub open spec fn relinked(p: Managed, o: OrderText) -> Managed {
    if o.list_id is Some && o.order_id is Some && o.kind is Some && o.list_id->0 > 0 {
        let q = Managed { oco_order_list_id: o.list_id, ..p };
        if is_stop_loss(o.kind->0) {
            Managed { stop_loss_order_id: o.order_id, ..q }
        } else if is_take_profit(o.kind->0) {
            Managed { take_profit_order_id: o.order_id, ..q }
        } else {
            q
        }
    } else {
        p
    }
}

/// The position with the identifiers that the open orders give, the last order counting.
pub open spec fn relinked_all(p: Managed, orders: Seq<OrderText>) -> Managed
    decreases orders.len(),
{
    if orders.len() == 0 {
        p
    } else {
        relinked(relinked_all(p, orders.drop_last()), orders.last())
    }
}

/// The order is a trailing stop with an identifier.
pub open spec fn is_trailing(o: OrderText) -> bool {
    o.order_id is Some && o.kind == Some("TRAILING_STOP_MARKET"@)
}

/// The position with the identifier of the first trailing stop from a place on.
pub open spec fn trailing_linked(p: Managed, orders: Seq<OrderText>, from: int) -> Managed
    decreases orders.len() - from,
{
    if from < 0 || from >= orders.len() {
        p
    } else if is_trailing(orders[from]) {
        Managed { trailing_stop_order_id: orders[from].order_id, ..p }
    } else {
        trailing_linked(p, orders, from + 1)
    }
}

/// The state that a phase of the log stands for.
pub open spec fn state_of(phase: TradePhase) -> TradeState {
    match phase {
        TradePhase::Phase1 => TradeState::Open,
        TradePhase::Phase2 => TradeState::FirstTpHit,
        TradePhase::Phase3 => TradeState::TrailingActive,
    }
}

/// The position that an open trade of the log stands for, before its orders are linked. Its risk
/// is that of the entry, which the log keeps while the stop moves.
pub open spec fn position_of(t: Record) -> Managed {
    Managed {
        state: state_of(t.phase),
        realized_pnl: t.realized_pnl,
        ..fresh_position(
            t.symbol,
            match t.direction {
                TradeDirection::Long => Position::Long,
                TradeDirection::Short => Position::Short,
            },
            t.entry_price,
            t.stop_loss,
            t.take_profit,
            t.position_size,
            t.atr_value,
            t.risk_per_unit,
            t.entry_time,
        )
    }
}

/// The position with the identifiers of simulated orders.
pub open spec fn mock_linked(p: Managed) -> Managed {
    Managed {
        oco_order_list_id: Some(10000),
        stop_loss_order_id: Some(10001),
        take_profit_order_id: Some(10002),
        trailing_stop_order_id: if p.state == TradeState::TrailingActive {
            Some(10003)
        } else {
            p.trailing_stop_order_id
        },
        ..p
    }
}

/// The position with the identifiers of the orders that were found: the order list's, and in the
/// trailing state that of the trailing stop.
pub open spec fn live_linked(
    p: Managed,
    open: Option<Seq<OrderText>>,
    algo: Option<Seq<OrderText>>,
) -> Managed {
    let q = match open {
        Some(o) => relinked_all(p, o),
        None => p,
    };
    if q.state == TradeState::TrailingActive && algo is Some {
        trailing_linked(q, algo->0, 0)
    } else {
        q
    }
}

/// The position that is restored for an open trade.
pub open spec fn restored(
    t: Record,
    mock: bool,
    open: Option<Seq<OrderText>>,
    algo: Option<Seq<OrderText>>,
) -> Managed {
    if mock {
        mock_linked(position_of(t))
    } else {
        live_linked(position_of(t), open, algo)
    }
}

/// A trade of the log comes back with its symbol, side, prices, size, risk, profit and state,
/// whatever orders are found for it.
pub proof fn law_restored_keeps_trade(
    t: Record,
    mock: bool,
    open: Option<Seq<OrderText>>,
    algo: Option<Seq<OrderText>>,
)
    ensures
        ({
            let p = restored(t, mock, open, algo);
            &&& p.symbol == t.symbol
            &&& p.direction == match t.direction {
                TradeDirection::Long => Position::Long,
                TradeDirection::Short => Position::Short,
            }
            &&& p.entry_price == t.entry_price
            &&& p.current_stop_loss == t.stop_loss
            &&& p.take_profit == t.take_profit
            &&& p.current_quantity == t.position_size
            &&& p.risk_per_unit == t.risk_per_unit
            &&& p.atr_value == t.atr_value
            &&& p.realized_pnl == t.realized_pnl
            &&& p.opened_at == t.entry_time
            &&& p.state == state_of(t.phase)
        }),
{
    let p = position_of(t);
    if open is Some {
        lemma_relinked_fields(p, open->0);
        if algo is Some {
            lemma_trailing_fields(relinked_all(p, open->0), algo->0, 0);
        }
    } else if algo is Some {
        lemma_trailing_fields(p, algo->0, 0);
    }
}

/// A restored trade that has its first take profit behind it trails from the same multiple of the
/// risk that it was entered with, wherever its stop is by then.
pub proof fn law_restored_trade_trails(
    t: Record,
    mock: bool,
    open: Option<Seq<OrderText>>,
    algo: Option<Seq<OrderText>>,
    price: Dec,
)
    requires
        t.phase == TradePhase::Phase2,
        t.risk_per_unit.m != 0,
        t.position_size.units() > zero().units(),
    ensures
        ({
            let p = restored(t, mock, open, algo);
            &&& p.r_multiple(price) == quotient_of(
                match t.direction {
                    TradeDirection::Long => difference(price, t.entry_price),
                    TradeDirection::Short => difference(t.entry_price, price),
                },
                Some(t.risk_per_unit),
            )
            &&& p.r_multiple(price) is Some && p.r_multiple(price)->0.units()
                >= config::trailing_r().units() && p.trailing_offset() is Some
                ==> p.evaluated(price) == Some(
                Management::Trail { offset: p.trailing_offset()->0 },
            )
        }),
{
    law_restored_keeps_trade(t, mock, open, algo);
}

/// `q` is `p` but for the identifiers of orders.
pub open spec fn same_but_orders(p: Managed, q: Managed) -> bool {
    q == (Managed {
        oco_order_list_id: q.oco_order_list_id,
        stop_loss_order_id: q.stop_loss_order_id,
        take_profit_order_id: q.take_profit_order_id,
        trailing_stop_order_id: q.trailing_stop_order_id,
        ..p
    })
}

proof fn lemma_relinked_fields(p: Managed, orders: Seq<OrderText>)
    ensures
        same_but_orders(p, relinked_all(p, orders)),
    decreases orders.len(),
{
    if orders.len() > 0 {
        lemma_relinked_fields(p, orders.drop_last());
    }
}

proof fn lemma_trailing_fields(p: Managed, orders: Seq<OrderText>, from: int)
    requires
        0 <= from,
    ensures
        same_but_orders(p, trailing_linked(p, orders, from)),
    decreases orders.len() - from,
{
    if from < orders.len() && !is_trailing(orders[from]) {
        lemma_trailing_fields(p, orders, from + 1);
    }
}

/// Links a position to the order list of its open orders.
pub fn link_open_orders(position: &mut ManagedPosition, orders: &Vec<OpenOrder>)
    ensures
        final(position)@ == relinked_all(old(position)@, order_views(orders@)),
{
    let ghost start = position@;
    let ghost all = order_views(orders@);
    let mut i: usize = 0;
    assert(all.take(0) =~= Seq::<OrderText>::empty());
    while i < orders.len()
        invariant
            i <= orders.len(),
            all == order_views(orders@),
            position@ == relinked_all(start, all.take(i as int)),
        decreases orders.len() - i,
    {
        let ghost next = all.take(i + 1);
        assert(next.drop_last() =~= all.take(i as int));
        assert(next.last() == orders@[i as int]@);
        let o = &orders[i];
        match (o.list_id, o.order_id, &o.kind) {
            (Some(list_id), Some(order_id), Some(kind)) => {
                if list_id > 0 {
                    position.oco_order_list_id = Some(list_id);
                    let kind = kind.as_str();
                    if same_text(kind, "STOP_LOSS_LIMIT") || same_text(kind, "STOP_LOSS") {
                        position.stop_loss_order_id = Some(order_id);
                    } else if same_text(kind, "TAKE_PROFIT_LIMIT") || same_text(
                        kind,
                        "TAKE_PROFIT",
                    ) {
                        position.take_profit_order_id = Some(order_id);
                    }
                }
            },
            _ => {},
        }
        i = i + 1;
    }
    assert(all.take(i as int) =~= all);
}

/// Links a position to the first trailing stop among conditional orders.
pub fn link_trailing_stop(position: &mut ManagedPosition, orders: &Vec<OpenOrder>)
    ensures
        final(position)@ == trailing_linked(old(position)@, order_views(orders@), 0),
{
    let ghost all = order_views(orders@);
    let mut i: usize = 0;
    while i < orders.len()
        invariant
            i <= orders.len(),
            all == order_views(orders@),
            position@ == old(position)@,
            trailing_linked(old(position)@, all, 0) == trailing_linked(
                old(position)@,
                all,
                i as int,
            ),
        decreases orders.len() - i,
    {
        assert(all[i as int] == orders@[i as int]@);
        let o = &orders[i];
        match (o.order_id, &o.kind) {
            (Some(order_id), Some(kind)) => {
                if same_text(kind.as_str(), "TRAILING_STOP_MARKET") {
                    position.trailing_stop_order_id = Some(order_id);
                    return;
                }
            },
            _ => {},
        }
        i = i + 1;
    }
}

/// The open orders that were found for a symbol: the standard ones, and the conditional ones.
/// Either is missing where it could not be had.
#[derive(Clone, Debug)]
pub struct FoundOrders {
    pub open: Option<Vec<OpenOrder>>,
    pub algo: Option<Vec<OpenOrder>>,
}

/// The position that is restored for an open trade, with its orders linked.
pub fn restored_position(trade: &TradeRecord, mock: bool, found: &FoundOrders) -> (r:
    ManagedPosition)
    ensures
        r@ == restored(trade@, mock, opt_orders(found.open), opt_orders(found.algo)),
{
    let direction = match trade.direction {
        TradeDirection::Long => Position::Long,
        TradeDirection::Short => Position::Short,
    };
    let mut position = ManagedPosition::with_risk(
        trade.symbol.as_str(),
        direction,
        trade.entry_price,
        trade.stop_loss,
        trade.take_profit,
        trade.position_size,
        trade.atr_value,
        trade.risk_per_unit,
        trade.entry_time,
    );
    position.state =
    match trade.phase {
        TradePhase::Phase1 => TradeState::Open,
        TradePhase::Phase2 => TradeState::FirstTpHit,
        TradePhase::Phase3 => TradeState::TrailingActive,
    };
    position.realized_pnl = trade.realized_pnl;
    if mock {
        position.oco_order_list_id = Some(10000);
        position.stop_loss_order_id = Some(10001);
        position.take_profit_order_id = Some(10002);
        if position.state == TradeState::TrailingActive {
            position.trailing_stop_order_id = Some(10003);
        }
    } else {
        match &found.open {
            Some(orders) => link_open_orders(&mut position, orders),
            None => {},
        }
        if position.state == TradeState::TrailingActive {
            match &found.algo {
                Some(orders) => link_trailing_stop(&mut position, orders),
                None => {},
            }
        }
    }
    position
}

/// The positions after the first `n` open trades were restored, a later trade of a symbol in place
/// of an earlier one.
pub open spec fn restored_book(
    book: Positions,
    trades: Seq<TradeRecord>,
    mock: bool,
    found: Seq<FoundOrders>,
    n: nat,
) -> Positions
    decreases n,
{
    if n == 0 {
        book
    } else {
        restored_book(book, trades, mock, found, (n - 1) as nat).insert(
            trades[n - 1]@.symbol,
            restored(
                trades[n - 1]@,
                mock,
                opt_orders(found[n - 1].open),
                opt_orders(found[n - 1].algo),
            ),
        )
    }
}

impl ExecutionEngine {
    /// Restores positions for the open trades of the log, with the orders that were found for
    /// each.
    pub fn restore_positions(&mut self, open_trades: &Vec<TradeRecord>, found: &Vec<FoundOrders>)
        requires
            open_trades@.len() == found@.len(),
        ensures
            final(self).same_setup(old(self)),
            final(self).book() == restored_book(
                old(self).book(),
                open_trades@,
                old(self).mock(),
                found@,
                open_trades@.len(),
            ),
    {
        let mock = self.is_mock();
        let ghost book = self.book();
        let mut i: usize = 0;
        while i < open_trades.len()
            invariant
                i <= open_trades.len(),
                open_trades@.len() == found@.len(),
                mock == old(self).mock(),
                self.same_setup(old(self)),
                self.book() == restored_book(book, open_trades@, mock, found@, i as nat),
            decreases open_trades.len() - i,
        {
            let p = restored_position(&open_trades[i], mock, &found[i]);
            self.put(open_trades[i].symbol.as_str(), p);
            i = i + 1;
        }
    }
}

/// The open order that a piece of an answer stands for.
pub open spec fn open_order_of(text: Seq<char>) -> OrderText {
    OrderText {
        list_id: member_u64(text, "orderListId"@),
        order_id: member_u64(text, "orderId"@),
        kind: member_string(text, "type"@),
    }
}

/// The conditional order that a piece of an answer stands for.
pub open spec fn algo_order_of(text: Seq<char>) -> OrderText {
    OrderText {
        list_id: None,
        order_id: match member_or(text, "orderId"@, "algoId"@) {
            Some(m) => json_u64(m),
            None => None,
        },
        kind: match member_or(text, "type"@, "origType"@) {
            Some(m) => json_string(m),
            None => None,
        },
    }
}

/// The open orders of an answer, if it is an array.
pub fn read_open_orders(body: &str) -> (r: Option<Vec<OpenOrder>>)
    ensures
        opt_orders(r) == match json_elements(body@) {
            Some(e) => Some(e.map_values(|t: Seq<char>| open_order_of(t))),
            None => None,
        },
{
    let texts = elements(body)?;
    let ghost all = views(texts@).map_values(|t: Seq<char>| open_order_of(t));
    let mut orders: Vec<OpenOrder> = Vec::new();
    let mut i: usize = 0;
    while i < texts.len()
        invariant
            i <= texts.len(),
            all == views(texts@).map_values(|t: Seq<char>| open_order_of(t)),
            order_views(orders@) == all.take(i as int),
        decreases texts.len() - i,
    {
        let text = texts[i].as_str();
        assert(views(texts@)[i as int] == text@);
        let order = OpenOrder {
            list_id: get_u64(text, "orderListId"),
            order_id: get_u64(text, "orderId"),
            kind: get_string(text, "type"),
        };
        let ghost before = orders@;
        orders.push(order);
        i = i + 1;
        assert(order_views(orders@) =~= order_views(before).push(order@));
        assert(order_views(orders@) =~= all.take(i as int));
    }
    assert(all.take(i as int) =~= all);
    Some(orders)
}

/// The conditional orders of an answer, if it is an array.
pub fn read_algo_orders(body: &str) -> (r: Option<Vec<OpenOrder>>)
    ensures
        opt_orders(r) == match json_elements(body@) {
            Some(e) => Some(e.map_values(|t: Seq<char>| algo_order_of(t))),
            None => None,
        },
{
    let texts = elements(body)?;
    let ghost all = views(texts@).map_values(|t: Seq<char>| algo_order_of(t));
    let mut orders: Vec<OpenOrder> = Vec::new();
    let mut i: usize = 0;
    while i < texts.len()
        invariant
            i <= texts.len(),
            all == views(texts@).map_values(|t: Seq<char>| algo_order_of(t)),
            order_views(orders@) == all.take(i as int),
        decreases texts.len() - i,
    {
        let text = texts[i].as_str();
        assert(views(texts@)[i as int] == text@);
        let order_id: Option<u64> = match get_member_or(text, "orderId", "algoId") {
            Some(m) => unsigned(m.as_str()),
            None => None,
        };
        let kind = match get_member_or(text, "type", "origType") {
            Some(m) => string(m.as_str()),
            None => None,
        };
        let order = OpenOrder { list_id: None, order_id, kind };
        let ghost before = orders@;
        orders.push(order);
        i = i + 1;
        assert(order_views(orders@) =~= order_views(before).push(order@));
        assert(order_views(orders@) =~= all.take(i as int));
    }
    assert(all.take(i as int) =~= all);
    Some(orders)
}

/// Where a symbol's rules come from: the step and the minimum from its lot size, the tick from its
/// price filter, whatever other rules stand around them; a lot size without a readable minimum has
/// none.
pub proof fn law_rules_by_kind(info: SymbolInfo, lot: int, filter: int)
    requires
        0 <= lot < info.filters@.len(),
        0 <= filter < info.filters@.len(),
        info.filters@[lot] is LotSize,
        info.filters@[filter] is PriceFilter,
        forall|k: int|
            0 <= k < info.filters@.len() && k != lot && k != filter
                ==> (#[trigger] info.filters@[k]) is Other,
    ensures
        ({
            let step = parsed(info.filters@[lot]->step_size@);
            let least = parsed(info.filters@[lot]->min_qty@);
            let tick = parsed(info.filters@[filter]->tick_size@);
            &&& step is Some && tick is Some ==> (rules_of(info) matches Ok(r) && r.step_size
                == step->0 && r.tick_size == tick->0 && (least is Some ==> r.min_qty == least->0)
                && (least is None ==> r.min_qty.m == 0))
            &&& step is None || tick is None ==> rules_of(info) is Err
        }),
{
    lemma_found_by_kind(info.filters@, lot, filter, info.filters@.len());
}

proof fn lemma_found_by_kind(rules: Seq<RuleText>, lot: int, filter: int, n: nat)
    requires
        0 <= lot < rules.len(),
        0 <= filter < rules.len(),
        n <= rules.len(),
        rules[lot] is LotSize,
        rules[filter] is PriceFilter,
        forall|k: int|
            0 <= k < rules.len() && k != lot && k != filter ==> (#[trigger] rules[k]) is Other,
    ensures
        found_rules(rules, n).step_size == if lot < n {
            parsed(rules[lot]->step_size@)
        } else {
            None
        },
        found_rules(rules, n).min_qty == if lot < n {
            parsed(rules[lot]->min_qty@)
        } else {
            None
        },
        found_rules(rules, n).tick_size == if filter < n {
            parsed(rules[filter]->tick_size@)
        } else {
            None
        },
    decreases n,
{
    if n > 0 {
        lemma_found_by_kind(rules, lot, filter, (n - 1) as nat);
    }
}

/// Rules are loaded for the wanted symbols and for no others, each those of its own entry.
pub proof fn law_only_wanted_rules_are_loaded(
    wanted: Seq<Seq<char>>,
    info: Seq<SymbolInfo>,
    n: nat,
    symbol: Seq<char>,
)
    requires
        n <= info.len(),
        loaded(wanted, info, n) is Ok,
    ensures
        ({
            let m = loaded(wanted, info, n)->Ok_0;
            &&& m.dom().contains(symbol) ==> wanted.contains(symbol) && exists|k: int|
                0 <= k < n && (#[trigger] info[k]).symbol@ == symbol && rules_of(info[k]) == Ok::<
                    Rules,
                    Seq<char>,
                >(m[symbol])
            &&& wanted.contains(symbol) && (exists|k: int|
                0 <= k < n && (#[trigger] info[k]).symbol@ == symbol) ==> m.dom().contains(symbol)
        }),
    decreases n,
{
    if n > 0 {
        law_only_wanted_rules_are_loaded(wanted, info, (n - 1) as nat, symbol);
        let before = loaded(wanted, info, (n - 1) as nat)->Ok_0;
        let m = loaded(wanted, info, n)->Ok_0;
        let last = info[n - 1];
        if m.dom().contains(symbol) {
            if last.symbol@ == symbol && wanted.contains(symbol) {
                assert(rules_of(info[n - 1]) == Ok::<Rules, Seq<char>>(m[symbol]));
            } else {
                let k = choose|k: int|
                    0 <= k < n - 1 && (#[trigger] info[k]).symbol@ == symbol && rules_of(info[k])
                        == Ok::<Rules, Seq<char>>(before[symbol]);
                assert(info[k].symbol@ == symbol);
            }
        }
    }
}

/// How open orders are linked to a restored position: an order of a list gives the list, and a stop
/// loss or a take profit of a list its own identifier; an order of no list gives nothing, and no order
/// changes more than that.
pub proof fn law_open_orders_by_kind(p: Managed, o: OrderText)
    ensures
        ({
            let q = relinked(p, o);
            let of_list = o.list_id is Some && o.list_id->0 > 0 && o.order_id is Some && o.kind
                is Some;
            let stop = o.kind == Some("STOP_LOSS_LIMIT"@) || o.kind == Some("STOP_LOSS"@);
            let target = o.kind == Some("TAKE_PROFIT_LIMIT"@) || o.kind == Some("TAKE_PROFIT"@);
            &&& !of_list ==> q == p
            &&& of_list ==> q.oco_order_list_id == o.list_id
            &&& of_list && stop ==> q.stop_loss_order_id == o.order_id && q.take_profit_order_id
                == p.take_profit_order_id
            &&& of_list && target && !stop ==> q.take_profit_order_id == o.order_id
                && q.stop_loss_order_id == p.stop_loss_order_id
            &&& of_list && !stop && !target ==> q.stop_loss_order_id == p.stop_loss_order_id
                && q.take_profit_order_id == p.take_profit_order_id
            &&& q.trailing_stop_order_id == p.trailing_stop_order_id
        }),
{
}

/// The trailing stop of a restored position is the first conditional order that is one, and is looked
/// for only where the position trails.
pub proof fn law_trailing_order_is_found(
    t: Record,
    open: Option<Seq<OrderText>>,
    algo: Seq<OrderText>,
    i: int,
)
    requires
        0 <= i < algo.len(),
        algo[i].kind == Some("TRAILING_STOP_MARKET"@) && algo[i].order_id is Some,
        forall|k: int|
            0 <= k < i ==> (#[trigger] algo[k]).kind != Some("TRAILING_STOP_MARKET"@)
                || algo[k].order_id is None,
    ensures
        t.phase == TradePhase::Phase3 ==> restored(t, false, open, Some(algo)).trailing_stop_order_id
            == algo[i].order_id,
        t.phase != TradePhase::Phase3 ==> restored(
            t,
            false,
            open,
            Some(algo),
        ).trailing_stop_order_id is None,
{
    let p = position_of(t);
    if open is Some {
        lemma_relinked_fields(p, open->0);
        lemma_relinked_trailing(p, open->0);
    }
    let q = match open {
        Some(o) => relinked_all(p, o),
        None => p,
    };
    lemma_first_trailing(q, algo, 0, i);
}

proof fn lemma_relinked_trailing(p: Managed, orders: Seq<OrderText>)
    ensures
        relinked_all(p, orders).trailing_stop_order_id == p.trailing_stop_order_id,
    decreases orders.len(),
{
    if orders.len() > 0 {
        lemma_relinked_trailing(p, orders.drop_last());
    }
}

proof fn lemma_first_trailing(p: Managed, orders: Seq<OrderText>, from: int, i: int)
    requires
        0 <= from <= i < orders.len(),
        is_trailing(orders[i]),
        forall|k: int| from <= k < i ==> !is_trailing(#[trigger] orders[k]),
    ensures
        trailing_linked(p, orders, from).trailing_stop_order_id == orders[i].order_id,
    decreases i - from,
{
    if from < i {
        lemma_first_trailing(p, orders, from + 1, i);
    }
}

/// Restoring gives every open trade's symbol a position: that of the last trade of the symbol; the
/// positions of other symbols stay.
pub proof fn law_last_trade_is_restored(
    book: Positions,
    trades: Seq<TradeRecord>,
    mock: bool,
    found: Seq<FoundOrders>,
    n: nat,
    symbol: Seq<char>,
)
    requires
        n <= trades.len() == found.len(),
    ensures
        ({
            let after = restored_book(book, trades, mock, found, n);
            &&& (forall|k: int| 0 <= k < n ==> (#[trigger] trades[k])@.symbol != symbol)
                ==> after.dom().contains(symbol) == book.dom().contains(symbol) && (
            book.dom().contains(symbol) ==> after[symbol] == book[symbol])
            &&& n > 0 && trades[n - 1]@.symbol == symbol ==> after.dom().contains(symbol)
                && after[symbol] == restored(
                trades[n - 1]@,
                mock,
                opt_orders(found[n - 1].open),
                opt_orders(found[n - 1].algo),
            )
            &&& n > 0 && trades[n - 1]@.symbol != symbol ==> {
                let before = restored_book(book, trades, mock, found, (n - 1) as nat);
                &&& after.dom().contains(symbol) == before.dom().contains(symbol)
                &&& before.dom().contains(symbol) ==> after[symbol] == before[symbol]
            }
        }),
    decreases n,
{
    if n > 0 {
        law_last_trade_is_restored(book, trades, mock, found, (n - 1) as nat, symbol);
    }
}

/// A simulated position is restored with the identifiers of simulated orders, no two the same, and with
/// that of a trailing stop exactly where it trails; orders that were found are of no account for it.
pub proof fn law_simulated_orders(
    t: Record,
    open: Option<Seq<OrderText>>,
    algo: Option<Seq<OrderText>>,
)
    ensures
        ({
            let p = restored(t, true, open, algo);
            &&& p.oco_order_list_id == Some(10000u64)
            &&& p.stop_loss_order_id == Some(10001u64)
            &&& p.take_profit_order_id == Some(10002u64)
            &&& t.phase == TradePhase::Phase3 ==> p.trailing_stop_order_id == Some(10003u64)
            &&& t.phase != TradePhase::Phase3 ==> p.trailing_stop_order_id is None
            &&& p == restored(t, true, None, None)
        }),
{
}

} // verus!
