//! Messages of the exchange's streams.
use crate::decimal::{opt_view, parsed, Decimal};
use crate::text::same_text;
use vstd::prelude::*;

verus! {

/// Aggregated trade.
#[derive(Clone, Debug)]
pub struct AggTrade {
    /// Event type ("aggTrade").
    pub event_type: String,
    /// Event time.
    pub event_time: u64,
    /// Symbol.
    pub symbol: String,
    /// Aggregate trade ID.
    pub agg_trade_id: u64,
    /// Price.
    pub price: String,
    /// Quantity.
    pub quantity: String,
    /// First trade ID.
    pub first_trade_id: u64,
    /// Last trade ID.
    pub last_trade_id: u64,
    /// Trade time.
    pub trade_time: u64,
    /// Whether the buyer is the maker.
    pub is_buyer_maker: bool,
}

/// Candle event.
#[derive(Clone, Debug)]
pub struct KlineEvent {
    /// Event type ("kline").
    pub event_type: String,
    /// Event time.
    pub event_time: u64,
    /// Symbol.
    pub symbol: String,
    /// Candle data.
    pub kline: KlineData,
}

/// Candle data.
#[derive(Clone, Debug)]
pub struct KlineData {
    /// Candle start time.
    pub start_time: u64,
    /// Candle close time.
    pub close_time: u64,
    /// Symbol.
    pub symbol: String,
    /// Interval.
    pub interval: String,
    /// Open price.
    pub open: String,
    /// Close price.
    pub close: String,
    /// High price.
    pub high: String,
    /// Low price.
    pub low: String,
    /// Base asset volume.
    pub volume: String,
    /// Number of trades.
    pub num_trades: u64,
    /// Whether the candle is closed.
    pub is_closed: bool,
    /// Quote asset volume.
    pub quote_volume: String,
}

/// Account update.
#[derive(Clone, Debug)]
pub struct AccountUpdate {
    /// Event type ("outboundAccountPosition").
    pub event_type: String,
    /// Event time.
    pub event_time: u64,
    /// Balances.
    pub balances: Vec<BalanceUpdate>,
}

/// Balance in an account update.
#[derive(Clone, Debug)]
pub struct BalanceUpdate {
    /// Asset.
    pub asset: String,
    /// Free amount.
    pub free: String,
    /// Locked amount.
    pub locked: String,
}

/// Order update.
#[derive(Clone, Debug)]
pub struct OrderUpdate {
    /// Event type ("executionReport").
    pub event_type: String,
    /// Event time.
    pub event_time: u64,
    /// Symbol.
    pub symbol: String,
    /// Client order ID.
    pub client_order_id: String,
    /// Side.
    pub side: String,
    /// Order type.
    pub order_type: String,
    /// Time in force.
    pub time_in_force: String,
    /// Quantity.
    pub quantity: String,
    /// Price.
    pub price: String,
    /// Stop price.
    pub stop_price: String,
    /// Order status.
    pub status: String,
    /// Order ID.
    pub order_id: u64,
    /// Last executed quantity.
    pub last_executed_qty: String,
    /// Last executed price.
    pub last_executed_price: String,
    /// Cumulative filled quantity.
    pub cumulative_qty: String,
}

impl AggTrade {
    /// The price as a number, if it is one.
    pub fn price_decimal(&self) -> (r: Option<Decimal>)
        ensures
            opt_view(r) == parsed(self.price@),
    {
        Decimal::parse(self.price.as_str())
    }

    /// The quantity as a number, if it is one.
    pub fn quantity_decimal(&self) -> (r: Option<Decimal>)
        ensures
            opt_view(r) == parsed(self.quantity@),
    {
        Decimal::parse(self.quantity.as_str())
    }
}

impl KlineData {
    /// The close as a number, if it is one.
    pub fn close_decimal(&self) -> (r: Option<Decimal>)
        ensures
            opt_view(r) == parsed(self.close@),
    {
        Decimal::parse(self.close.as_str())
    }

    /// The open as a number, if it is one.
    pub fn open_decimal(&self) -> (r: Option<Decimal>)
        ensures
            opt_view(r) == parsed(self.open@),
    {
        Decimal::parse(self.open.as_str())
    }

    /// The high as a number, if it is one.
    pub fn high_decimal(&self) -> (r: Option<Decimal>)
        ensures
            opt_view(r) == parsed(self.high@),
    {
        Decimal::parse(self.high.as_str())
    }

    /// The low as a number, if it is one.
    pub fn low_decimal(&self) -> (r: Option<Decimal>)
        ensures
            opt_view(r) == parsed(self.low@),
    {
        Decimal::parse(self.low.as_str())
    }

    /// The volume as a number, if it is one.
    pub fn volume_decimal(&self) -> (r: Option<Decimal>)
        ensures
            opt_view(r) == parsed(self.volume@),
    {
        Decimal::parse(self.volume.as_str())
    }
}

impl BalanceUpdate {
    /// The free as a number, if it is one.
    pub fn free_decimal(&self) -> (r: Option<Decimal>)
        ensures
            opt_view(r) == parsed(self.free@),
    {
        Decimal::parse(self.free.as_str())
    }

    /// The locked as a number, if it is one.
    pub fn locked_decimal(&self) -> (r: Option<Decimal>)
        ensures
            opt_view(r) == parsed(self.locked@),
    {
        Decimal::parse(self.locked.as_str())
    }
}

impl OrderUpdate {
    /// The price as a number, if it is one.
    pub fn price_decimal(&self) -> (r: Option<Decimal>)
        ensures
            opt_view(r) == parsed(self.price@),
    {
        Decimal::parse(self.price.as_str())
    }

    /// The quantity as a number, if it is one.
    pub fn quantity_decimal(&self) -> (r: Option<Decimal>)
        ensures
            opt_view(r) == parsed(self.quantity@),
    {
        Decimal::parse(self.quantity.as_str())
    }
}

impl OrderUpdate {
    /// Returns true if the order is filled.
    pub fn is_filled(&self) -> (r: bool)
        ensures
            r == (self.status@ == "FILLED"@),
    {
        same_text(self.status.as_str(), "FILLED")
    }

    /// Returns true if the order is cancelled, in either spelling.
    pub fn is_cancelled(&self) -> (r: bool)
        ensures
            r == (self.status@ == "CANCELED"@ || self.status@ == "CANCELLED"@),
    {
        same_text(self.status.as_str(), "CANCELED") || same_text(self.status.as_str(), "CANCELLED")
    }
}

/// A message of a stream.
#[derive(Clone, Debug)]
pub enum WsMessage {
    /// Aggregated trade.
    AggTrade(AggTrade),
    /// Candle.
    Kline(KlineEvent),
    /// Account update.
    Account(AccountUpdate),
    /// Order update.
    Order(OrderUpdate),
    /// Ping with its payload.
    Ping(Vec<u8>),
    /// The connection was closed.
    Closed,
    /// Anything else, as it came.
    Unknown(String),
}

/// The message that an event stands for, given what it could be read as: the first reading whose
/// event type fits. Where none does, the text stays as it came.
pub fn classify_event(
    agg_trade: Option<AggTrade>,
    kline: Option<KlineEvent>,
    account: Option<AccountUpdate>,
    order: Option<OrderUpdate>,
    original: &str,
) -> (r: WsMessage)
    ensures
        if agg_trade is Some && agg_trade->0.event_type@ == "aggTrade"@ {
            r == WsMessage::AggTrade(agg_trade->0)
        } else if kline is Some && kline->0.event_type@ == "kline"@ {
            r == WsMessage::Kline(kline->0)
        } else if account is Some && account->0.event_type@ == "outboundAccountPosition"@ {
            r == WsMessage::Account(account->0)
        } else if order is Some && order->0.event_type@ == "executionReport"@ {
            r == WsMessage::Order(order->0)
        } else {
            r is Unknown && r->Unknown_0@ == original@
        },
{
    match agg_trade {
        Some(e) => {
            if same_text(e.event_type.as_str(), "aggTrade") {
                return WsMessage::AggTrade(e);
            }
        },
        None => {},
    }
    match kline {
        Some(e) => {
            if same_text(e.event_type.as_str(), "kline") {
                return WsMessage::Kline(e);
            }
        },
        None => {},
    }
    match account {
        Some(e) => {
            if same_text(e.event_type.as_str(), "outboundAccountPosition") {
                return WsMessage::Account(e);
            }
        },
        None => {},
    }
    match order {
        Some(e) => {
            if same_text(e.event_type.as_str(), "executionReport") {
                return WsMessage::Order(e);
            }
        },
        None => {},
    }
    WsMessage::Unknown(original.to_owned())
}

/// Price tick.
#[derive(Clone, Debug)]
pub struct PriceTick {
    /// Symbol.
    pub symbol: String,
    /// Price.
    pub price: Decimal,
    /// Trade time.
    pub timestamp: u64,
}

/// What happened to an order.
#[derive(Clone, Debug)]
pub enum OrderEvent {
    /// The order was filled.
    Filled { symbol: String, order_id: u64, side: String, price: Decimal, quantity: Decimal },
    /// The order was cancelled.
    Cancelled { symbol: String, order_id: u64 },
    /// The order was rejected.
    Rejected { symbol: String, order_id: u64, reason: String },
}

} // verus!
