//! Orders and their requests, results and errors.
use crate::decimal::{
    aligned_sum, difference, law_difference_is_exact, law_product_is_rounded, law_sum_is_exact,
    mul_opt, opt_view, pow10, product_of, rounds_to, sum, whole, Dec, Decimal, Price, Volume,
};
use vstd::prelude::*;

verus! {

/// Order side (buy or sell).
#[derive(Clone, Copy, Debug, PartialEq, Eq, Structural)]
pub enum OrderSide {
    Buy,
    Sell,
}

impl OrderSide {
    /// The other side.
    pub open spec fn other(self) -> OrderSide {
        match self {
            OrderSide::Buy => OrderSide::Sell,
            OrderSide::Sell => OrderSide::Buy,
        }
    }

    /// Returns the opposite side.
    pub fn opposite(&self) -> (r: OrderSide)
        ensures
            r == self.other(),
            r.other() == *self,
    {
        match self {
            OrderSide::Buy => OrderSide::Sell,
            OrderSide::Sell => OrderSide::Buy,
        }
    }
}

/// Order type classification.
#[derive(Clone, Copy, Debug, PartialEq, Eq, Structural)]
pub enum OrderType {
    /// Standard limit order.
    Limit,
    /// Market order (not recommended, for emergency only).
    Market,
    /// Stop loss limit order.
    StopLossLimit,
    /// Take profit limit order.
    TakeProfitLimit,
    /// Trailing stop order.
    TrailingStop,
}

/// Order status from exchange.
#[derive(Clone, Copy, Debug, PartialEq, Eq, Structural)]
pub enum OrderStatus {
    /// Order is pending/new.
    New,
    /// Order is partially filled.
    PartiallyFilled,
    /// Order is completely filled.
    Filled,
    /// Order was canceled.
    Canceled,
    /// Order was rejected.
    Rejected,
    /// Order expired.
    Expired,
}

impl OrderStatus {
    /// The order may still be filled.
    pub open spec fn active(self) -> bool {
        self == OrderStatus::New || self == OrderStatus::PartiallyFilled
    }

    /// Returns true if order is still active.
    pub fn is_active(&self) -> (r: bool)
        ensures
            r == self.active(),
    {
        matches!(self, OrderStatus::New | OrderStatus::PartiallyFilled)
    }

    /// Returns true if order is terminal (no more changes expected). An order is either active or
    /// terminal.
    pub fn is_terminal(&self) -> (r: bool)
        ensures
            r == !self.active(),
            r == (*self == OrderStatus::Filled || *self == OrderStatus::Canceled || *self
                == OrderStatus::Rejected || *self == OrderStatus::Expired),
    {
        matches!(
            self,
            OrderStatus::Filled | OrderStatus::Canceled | OrderStatus::Rejected
                | OrderStatus::Expired
        )
    }
}

/// Time in force for orders.
#[derive(Clone, Copy, Debug, PartialEq, Eq, Structural)]
pub enum TimeInForce {
    /// Good till canceled.
    GTC,
    /// Immediate or cancel.
    IOC,
    /// Fill or kill.
    FOK,
}

impl Default for TimeInForce {
    fn default() -> (r: TimeInForce)
        ensures
            r == TimeInForce::GTC,
    {
        TimeInForce::GTC
    }
}

/// Request to place an order.
#[derive(Clone, Debug)]
pub struct OrderRequest {
    /// Trading symbol (e.g., "BTCUSDT").
    pub symbol: String,
    /// Order side.
    pub side: OrderSide,
    /// Order type.
    pub order_type: OrderType,
    /// Quantity to trade.
    pub quantity: Volume,
    /// Limit price (required for limit orders).
    pub price: Option<Price>,
    /// Stop price (for stop loss/take profit orders).
    pub stop_price: Option<Price>,
    /// Trailing delta for trailing stop (in price units).
    pub trailing_delta: Option<Price>,
    /// Client order ID for tracking.
    pub client_order_id: Option<String>,
    /// Time in force (GTC, IOC, FOK).
    pub time_in_force: TimeInForce,
}

impl OrderRequest {
    /// The request is a good-till-canceled order of the given kind, without a client ID.
    pub open spec fn is_order(
        self,
        symbol: Seq<char>,
        side: OrderSide,
        order_type: OrderType,
        quantity: Volume,
        price: Price,
        stop_price: Option<Price>,
    ) -> bool {
        &&& self.symbol@ == symbol
        &&& self.side == side
        &&& self.order_type == order_type
        &&& self.quantity == quantity
        &&& self.price == Some(price)
        &&& self.stop_price == stop_price
        &&& self.trailing_delta is None
        &&& self.client_order_id is None
        &&& self.time_in_force == TimeInForce::GTC
    }

    /// Creates a new limit order request.
    pub fn limit(symbol: &str, side: OrderSide, quantity: Volume, price: Price) -> (r: OrderRequest)
        ensures
            r.is_order(symbol@, side, OrderType::Limit, quantity, price, None),
    {
        OrderRequest {
            symbol: symbol.to_owned(),
            side,
            order_type: OrderType::Limit,
            quantity,
            price: Some(price),
            stop_price: None,
            trailing_delta: None,
            client_order_id: None,
            time_in_force: TimeInForce::GTC,
        }
    }

    /// Creates a stop loss limit order request.
    pub fn stop_loss_limit(
        symbol: &str,
        side: OrderSide,
        quantity: Volume,
        price: Price,
        stop_price: Price,
    ) -> (r: OrderRequest)
        ensures
            r.is_order(
                symbol@,
                side,
                OrderType::StopLossLimit,
                quantity,
                price,
                Some(stop_price),
            ),
    {
        OrderRequest {
            symbol: symbol.to_owned(),
            side,
            order_type: OrderType::StopLossLimit,
            quantity,
            price: Some(price),
            stop_price: Some(stop_price),
            trailing_delta: None,
            client_order_id: None,
            time_in_force: TimeInForce::GTC,
        }
    }

    /// Creates a take profit limit order request.
    pub fn take_profit_limit(
        symbol: &str,
        side: OrderSide,
        quantity: Volume,
        price: Price,
        stop_price: Price,
    ) -> (r: OrderRequest)
        ensures
            r.is_order(
                symbol@,
                side,
                OrderType::TakeProfitLimit,
                quantity,
                price,
                Some(stop_price),
            ),
    {
        OrderRequest {
            symbol: symbol.to_owned(),
            side,
            order_type: OrderType::TakeProfitLimit,
            quantity,
            price: Some(price),
            stop_price: Some(stop_price),
            trailing_delta: None,
            client_order_id: None,
            time_in_force: TimeInForce::GTC,
        }
    }

    /// Sets a custom client order ID.
    pub fn with_client_id(self, id: &str) -> (r: OrderRequest)
        ensures
            r.client_order_id is Some,
            r.client_order_id->0@ == id@,
            r == (OrderRequest { client_order_id: r.client_order_id, ..self }),
    {
        let mut r = self;
        r.client_order_id = Some(id.to_owned());
        r
    }
}

/// Result of an order placement.
#[derive(Clone, Debug)]
pub struct OrderResult {
    /// Exchange order ID.
    pub order_id: u64,
    /// Client order ID (if provided).
    pub client_order_id: Option<String>,
    /// Symbol traded.
    pub symbol: String,
    /// Order status.
    pub status: OrderStatus,
    /// Side.
    pub side: OrderSide,
    /// Order type.
    pub order_type: OrderType,
    /// Requested quantity.
    pub quantity: Volume,
    /// Filled quantity.
    pub filled_quantity: Volume,
    /// Average fill price.
    pub avg_price: Price,
    /// Timestamp.
    pub timestamp: i64,
}

impl OrderResult {
    /// Returns true if order is completely filled.
    pub fn is_filled(&self) -> (r: bool)
        ensures
            r == (self.status == OrderStatus::Filled),
    {
        self.status == OrderStatus::Filled
    }

    /// Returns the unfilled quantity.
    pub fn remaining_quantity(&self) -> (r: Volume)
        requires
            difference(self.quantity@, self.filled_quantity@) is Some,
        ensures
            Some(r@) == difference(self.quantity@, self.filled_quantity@),
    {
        self.quantity.checked_sub(&self.filled_quantity).unwrap()
    }

    /// [`OrderResult::remaining_quantity`], or nothing where it cannot be held.
    pub fn checked_remaining_quantity(&self) -> (r: Option<Volume>)
        ensures
            opt_view(r) == difference(self.quantity@, self.filled_quantity@),
    {
        if self.quantity.checked_sub(&self.filled_quantity).is_some() {
            Some(self.remaining_quantity())
        } else {
            None
        }
    }
}

/// OCO (One-Cancels-Other) order request.
#[derive(Clone, Debug)]
pub struct OcoOrderRequest {
    /// Trading symbol.
    pub symbol: String,
    /// Order side.
    pub side: OrderSide,
    /// Quantity for both legs.
    pub quantity: Volume,
    /// Take profit limit price.
    pub take_profit_price: Price,
    /// Stop loss trigger price.
    pub stop_loss_trigger: Price,
    /// Stop loss limit price (slightly worse than trigger).
    pub stop_loss_limit: Price,
    /// Client order list ID.
    pub list_client_order_id: Option<String>,
}

/// The limit price of a stop that closes with the given side: a sale allows for slippage below
/// the trigger, a purchase above it.
pub open spec fn stop_limit(side: OrderSide, trigger: Dec, slippage: Dec) -> Option<Dec> {
    match side {
        OrderSide::Sell => product_of(Some(trigger), difference(whole(1), slippage)),
        OrderSide::Buy => product_of(Some(trigger), sum(whole(1), slippage)),
    }
}

/// The limit price of a stop that closes with the given side, if it can be held.
pub fn stop_limit_price(side: OrderSide, trigger: Price, slippage: Decimal) -> (r: Option<Price>)
    ensures
        opt_view(r) == stop_limit(side, trigger@, slippage@),
{
    match side {
        OrderSide::Sell => mul_opt(Some(trigger), Decimal::one().checked_sub(&slippage)),
        OrderSide::Buy => mul_opt(Some(trigger), Decimal::one().checked_add(&slippage)),
    }
}

impl OcoOrderRequest {
    /// The request closes a position with the given side.
    pub open spec fn closes(
        self,
        symbol: Seq<char>,
        side: OrderSide,
        quantity: Volume,
        take_profit_price: Price,
        stop_loss_trigger: Price,
        slippage: Dec,
    ) -> bool {
        &&& self.symbol@ == symbol
        &&& self.side == side
        &&& self.quantity == quantity
        &&& self.take_profit_price == take_profit_price
        &&& self.stop_loss_trigger == stop_loss_trigger
        &&& Some(self.stop_loss_limit@) == stop_limit(side, stop_loss_trigger@, slippage)
        &&& self.list_client_order_id is None
    }

    /// Creates an OCO order for closing a position with the given side, if the limit price can be
    /// held.
    pub fn checked_close(
        symbol: &str,
        side: OrderSide,
        quantity: Volume,
        take_profit_price: Price,
        stop_loss_trigger: Price,
        slippage: Decimal,
    ) -> (r: Option<OcoOrderRequest>)
        ensures
            r is Some == stop_limit(side, stop_loss_trigger@, slippage@) is Some,
            r is Some ==> r->0.closes(
                symbol@,
                side,
                quantity,
                take_profit_price,
                stop_loss_trigger,
                slippage@,
            ),
    {
        if stop_limit_price(side, stop_loss_trigger, slippage).is_none() {
            return None;
        }
        Some(
            match side {
                OrderSide::Sell => OcoOrderRequest::close_long(
                    symbol,
                    quantity,
                    take_profit_price,
                    stop_loss_trigger,
                    slippage,
                ),
                OrderSide::Buy => OcoOrderRequest::close_short(
                    symbol,
                    quantity,
                    take_profit_price,
                    stop_loss_trigger,
                    slippage,
                ),
            },
        )
    }

    /// Creates a new OCO order for closing a long position.
    ///
    /// - Take profit: SELL at `take_profit_price`
    /// - Stop loss: SELL when price drops to `stop_loss_trigger`
    pub fn close_long(
        symbol: &str,
        quantity: Volume,
        take_profit_price: Price,
        stop_loss_trigger: Price,
        slippage: Decimal,
    ) -> (r: OcoOrderRequest)
        requires
            stop_limit(OrderSide::Sell, stop_loss_trigger@, slippage@) is Some,
        ensures
            r.closes(
                symbol@,
                OrderSide::Sell,
                quantity,
                take_profit_price,
                stop_loss_trigger,
                slippage@,
            ),
    {
        OcoOrderRequest {
            symbol: symbol.to_owned(),
            side: OrderSide::Sell,
            quantity,
            take_profit_price,
            stop_loss_trigger,
            stop_loss_limit: stop_limit_price(
                OrderSide::Sell,
                stop_loss_trigger,
                slippage,
            ).unwrap(),
            list_client_order_id: None,
        }
    }

    /// Creates a new OCO order for closing a short position.
    ///
    /// - Take profit: BUY at `take_profit_price`
    /// - Stop loss: BUY when price rises to `stop_loss_trigger`
    pub fn close_short(
        symbol: &str,
        quantity: Volume,
        take_profit_price: Price,
        stop_loss_trigger: Price,
        slippage: Decimal,
    ) -> (r: OcoOrderRequest)
        requires
            stop_limit(OrderSide::Buy, stop_loss_trigger@, slippage@) is Some,
        ensures
            r.closes(
                symbol@,
                OrderSide::Buy,
                quantity,
                take_profit_price,
                stop_loss_trigger,
                slippage@,
            ),
    {
        OcoOrderRequest {
            symbol: symbol.to_owned(),
            side: OrderSide::Buy,
            quantity,
            take_profit_price,
            stop_loss_trigger,
            stop_loss_limit: stop_limit_price(
                OrderSide::Buy,
                stop_loss_trigger,
                slippage,
            ).unwrap(),
            list_client_order_id: None,
        }
    }
}

/// Result of an OCO order placement.
#[derive(Clone, Debug)]
pub struct OcoOrderResult {
    /// Order list ID.
    pub order_list_id: u64,
    /// Client order list ID.
    pub list_client_order_id: Option<String>,
    /// Symbol.
    pub symbol: String,
    /// Take profit order ID.
    pub take_profit_order_id: u64,
    /// Stop loss order ID.
    pub stop_loss_order_id: u64,
    /// Status of the order list.
    pub status: OcoStatus,
}

/// Status of an OCO order list.
#[derive(Clone, Copy, Debug, PartialEq, Eq, Structural)]
pub enum OcoStatus {
    /// Both orders are active.
    Executing,
    /// One order filled, other canceled.
    AllDone,
    /// Order list rejected.
    Reject,
}

/// Errors that can occur during order execution.
#[derive(Clone, Debug)]
pub enum ExecutionError {
    /// Funding rate exceeds maximum allowed.
    FundingRateTooHigh { rate: Decimal, limit: Decimal },
    /// Slippage exceeds maximum allowed.
    SlippageExceeded { expected: Price, actual: Price },
    /// Order was rejected by exchange.
    OrderRejected { reason: String },
    /// Not enough balance.
    InsufficientBalance { required: Decimal, available: Decimal },
    /// No position of the symbol.
    PositionNotFound { symbol: String },
    /// The exchange answered with an error.
    ExchangeError { message: String },
    /// The exchange could not be reached.
    ConnectionError { message: String },
}

/// The model of an execution error.
pub enum ExecutionFault {
    FundingRateTooHigh { rate: Dec, limit: Dec },
    SlippageExceeded { expected: Dec, actual: Dec },
    OrderRejected { reason: Seq<char> },
    InsufficientBalance { required: Dec, available: Dec },
    PositionNotFound { symbol: Seq<char> },
    ExchangeError { message: Seq<char> },
    ConnectionError { message: Seq<char> },
}

impl View for ExecutionError {
    type V = ExecutionFault;

    open spec fn view(&self) -> ExecutionFault {
        match *self {
            ExecutionError::FundingRateTooHigh { rate, limit } => ExecutionFault::FundingRateTooHigh {
                rate: rate@,
                limit: limit@,
            },
            ExecutionError::SlippageExceeded { expected, actual } => ExecutionFault::SlippageExceeded {
                expected: expected@,
                actual: actual@,
            },
            ExecutionError::OrderRejected { reason } => ExecutionFault::OrderRejected {
                reason: reason@,
            },
            ExecutionError::InsufficientBalance { required, available } => ExecutionFault::InsufficientBalance {
                required: required@,
                available: available@,
            },
            ExecutionError::PositionNotFound { symbol } => ExecutionFault::PositionNotFound {
                symbol: symbol@,
            },
            ExecutionError::ExchangeError { message } => ExecutionFault::ExchangeError {
                message: message@,
            },
            ExecutionError::ConnectionError { message } => ExecutionFault::ConnectionError {
                message: message@,
            },
        }
    }
}

impl ExecutionFault {
    /// The message of the error.
    pub open spec fn message(self) -> Seq<char> {
        match self {
            ExecutionFault::FundingRateTooHigh { rate, limit } => "Funding rate "@ + rate.text() + " exceeds limit "@ + limit.text(),
            ExecutionFault::SlippageExceeded { expected, actual } => "Slippage exceeded: expected "@ + expected.text() + ", got "@ + actual.text(),
            ExecutionFault::OrderRejected { reason } => "Order rejected: "@ + reason,
            ExecutionFault::InsufficientBalance { required, available } => "Insufficient balance: need "@ + required.text() + ", have "@ + available.text(),
            ExecutionFault::PositionNotFound { symbol } => "Position not found: "@ + symbol,
            ExecutionFault::ExchangeError { message } => "Exchange error: "@ + message,
            ExecutionFault::ConnectionError { message } => "Connection error: "@ + message,
        }
    }
}

impl ExecutionError {
    /// The message of the error.
    pub fn to_string(&self) -> (r: String)
        ensures
            r@ == self@.message(),
    {
        match self {
            ExecutionError::FundingRateTooHigh { rate, limit } => "Funding rate ".to_owned().concat(rate.to_string().as_str()).concat(" exceeds limit ").concat(limit.to_string().as_str()),
            ExecutionError::SlippageExceeded { expected, actual } => "Slippage exceeded: expected ".to_owned().concat(expected.to_string().as_str()).concat(", got ").concat(actual.to_string().as_str()),
            ExecutionError::OrderRejected { reason } => "Order rejected: ".to_owned().concat(reason.as_str()),
            ExecutionError::InsufficientBalance { required, available } => "Insufficient balance: need ".to_owned().concat(required.to_string().as_str()).concat(", have ").concat(available.to_string().as_str()),
            ExecutionError::PositionNotFound { symbol } => "Position not found: ".to_owned().concat(symbol.as_str()),
            ExecutionError::ExchangeError { message } => "Exchange error: ".to_owned().concat(message.as_str()),
            ExecutionError::ConnectionError { message } => "Connection error: ".to_owned().concat(message.as_str()),
        }
    }
}

/// The limit behind a stop, by value: a sale goes down to the trigger less the slippage, a purchase up
/// to the trigger and the slippage, up to a rounding.
pub proof fn law_stop_limit_by_value(side: OrderSide, trigger: Dec, slippage: Dec)
    requires
        trigger.valid(),
        slippage.valid(),
        aligned_sum(whole(1), slippage).valid(),
        aligned_sum(whole(1), slippage.negated()).valid(),
        stop_limit(side, trigger, slippage) is Some,
    ensures
        stop_limit(side, trigger, slippage)->0.valid(),
        side == OrderSide::Sell ==> rounds_to(
            trigger.units() * (pow10(28) - slippage.units()),
            pow10(28),
            stop_limit(side, trigger, slippage)->0.units(),
        ),
        side == OrderSide::Buy ==> rounds_to(
            trigger.units() * (pow10(28) + slippage.units()),
            pow10(28),
            stop_limit(side, trigger, slippage)->0.units(),
        ),
{
    assert(whole(1).units() == pow10(28));
    law_sum_is_exact(whole(1), slippage);
    law_difference_is_exact(whole(1), slippage);
    match side {
        OrderSide::Buy => law_product_is_rounded(trigger, sum(whole(1), slippage)->0),
        OrderSide::Sell => law_product_is_rounded(trigger, difference(whole(1), slippage)->0),
    }
}

/// Turning a side over twice gives the side itself, and once the other one.
pub proof fn law_sides_turn_over(side: OrderSide)
    ensures
        side.other() != side,
        side.other().other() == side,
{
}

/// An order that is new or partly filled may still be filled; one that is filled, canceled, rejected
/// or expired may not.
pub proof fn law_order_states(s: OrderStatus)
    ensures
        s is New || s is PartiallyFilled ==> s.active(),
        s is Filled || s is Canceled || s is Rejected || s is Expired ==> !s.active(),
{
}

/// A request that closes a position has both legs on the side that was asked for, with one quantity, the
/// target and the trigger as they were given, and its limit behind the trigger, up to a rounding.
pub proof fn law_closing_request_by_value(
    r: OcoOrderRequest,
    symbol: Seq<char>,
    side: OrderSide,
    quantity: Volume,
    target: Price,
    trigger: Price,
    slippage: Dec,
)
    requires
        r.closes(symbol, side, quantity, target, trigger, slippage),
        trigger@.valid(),
        slippage.valid(),
        aligned_sum(whole(1), slippage).valid(),
        aligned_sum(whole(1), slippage.negated()).valid(),
    ensures
        r.symbol@ == symbol && r.side == side && r.quantity@ == quantity@,
        r.take_profit_price@ == target@ && r.stop_loss_trigger@ == trigger@,
        side == OrderSide::Sell ==> rounds_to(
            trigger@.units() * (pow10(28) - slippage.units()),
            pow10(28),
            r.stop_loss_limit@.units(),
        ),
        side == OrderSide::Buy ==> rounds_to(
            trigger@.units() * (pow10(28) + slippage.units()),
            pow10(28),
            r.stop_loss_limit@.units(),
        ),
        r.list_client_order_id is None,
{
    law_stop_limit_by_value(side, trigger@, slippage);
}

} // verus!
