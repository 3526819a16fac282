//! Order-related models.

use vstd::prelude::*;
use vstd::string::*;
use crate::decimal::Decimal;
use crate::error::{GatewayError, GatewayErrorView};
use crate::text::{comma_pieces, find, join3, texts, trim, trimmed};
use crate::time::Timestamp;
use super::{MarginMode, OrderStatus, OrderType, RejectReason, Side, TimeInForce, TrailingType};

verus! {

/// Request to submit a new order.
#[derive(Debug)]
pub struct OrderRequest {
    /// Canonical symbol format (e.g., "EUR/USD", "AAPL")
    pub symbol: String,
    /// Buy or sell
    pub side: Side,
    /// Quantity in base units (must be positive)
    pub quantity: Decimal,
    /// Order type
    pub order_type: OrderType,
    /// Required for LIMIT and `STOP_LIMIT` orders
    pub limit_price: Option<Decimal>,
    /// Required for STOP and `STOP_LIMIT` orders
    pub stop_price: Option<Decimal>,
    /// Distance for `TRAILING_STOP` orders
    pub trailing_distance: Option<Decimal>,
    /// Type of trailing stop (absolute or percent)
    pub trailing_type: Option<TrailingType>,
    /// Stop loss price for bracket order
    pub stop_loss: Option<Decimal>,
    /// Take profit price for bracket order
    pub take_profit: Option<Decimal>,
    /// Target position ID (for hedging accounts)
    pub position_id: Option<String>,
    /// If true, can only reduce position
    pub reduce_only: bool,
    /// If true, reject if would immediately fill (maker only)
    pub post_only: bool,
    /// If true, order not visible in order book
    pub hidden: bool,
    /// Visible quantity for iceberg orders
    pub display_quantity: Option<Decimal>,
    /// Margin mode (cross or isolated)
    pub margin_mode: Option<MarginMode>,
    /// Leverage multiplier
    pub leverage: Option<Decimal>,
    /// Client-provided order ID for idempotency
    pub client_order_id: Option<String>,
    /// OCO group ID to link orders (one-cancels-other).
    pub oco_group_id: Option<String>,
    /// Time in force (default: GTC)
    pub time_in_force: TimeInForce,
}

/// A rule on a single field of an order request.
#[derive(Debug, Clone, Copy, PartialEq, Eq, Structural)]
pub enum FieldRule {
    /// The symbol has 1 to 20 characters.
    SymbolLength,
    /// The quantity is positive.
    QuantityPositive,
    /// The client order ID has at most 64 characters.
    ClientOrderIdLength,
    /// The OCO group ID has at most 64 characters.
    OcoGroupIdLength,
}

impl FieldRule {
    /// The field that the rule is on.
    pub fn field(&self) -> (name: &'static str)
        ensures
            name@ == (match *self {
                FieldRule::SymbolLength => "symbol"@,
                FieldRule::QuantityPositive => "quantity"@,
                FieldRule::ClientOrderIdLength => "client_order_id"@,
                FieldRule::OcoGroupIdLength => "oco_group_id"@,
            }),
    {
        match self {
            FieldRule::SymbolLength => "symbol",
            FieldRule::QuantityPositive => "quantity",
            FieldRule::ClientOrderIdLength => "client_order_id",
            FieldRule::OcoGroupIdLength => "oco_group_id",
        }
    }

    /// The code under which a breach is reported.
    pub fn code(&self) -> (code: &'static str)
        ensures
            code@ == (if *self == FieldRule::QuantityPositive {
                "must be positive"@
            } else {
                "length"@
            }),
    {
        match self {
            FieldRule::QuantityPositive => "must be positive",
            _ => "length",
        }
    }
}

/// Whether a text that may be absent has at most so many characters.
pub open spec fn at_most_chars(text: Option<String>, limit: nat) -> bool {
    text matches Some(s) ==> s@.len() <= limit
}

/// The first of two errors.
pub open spec fn first_of(
    a: Option<GatewayErrorView>,
    b: Option<GatewayErrorView>,
) -> Option<GatewayErrorView> {
    match a {
        Some(e) => Some(e),
        None => b,
    }
}

/// The error for a required field that is missing.
pub open spec fn missing_error(order_type: Seq<char>, field: Seq<char>) -> GatewayErrorView {
    GatewayErrorView::InvalidRequest {
        message: order_type + " orders require "@ + field,
        field: Some(field),
    }
}

/// The error for a field whose value is refused.
pub open spec fn value_error(
    field: Seq<char>,
    message: Seq<char>,
    value: Decimal,
) -> GatewayErrorView {
    GatewayErrorView::InvalidValue { field, message, provided: Some(value.spec_text()) }
}

/// The error where a field is set that an order type does not have.
pub open spec fn unexpected_error(
    order_type: Seq<char>,
    field: Seq<char>,
    value: Option<Decimal>,
) -> Option<GatewayErrorView> {
    match value {
        Some(v) => Some(value_error(field, order_type + " orders should not have "@ + field, v)),
        None => None,
    }
}

/// The error where a set field is not positive.
pub open spec fn not_positive_error(field: Seq<char>, value: Option<Decimal>) -> Option<
    GatewayErrorView,
> {
    match value {
        Some(v) => if v@ <= 0 {
            Some(value_error(field, "must be positive"@, v))
        } else {
            None
        },
        None => None,
    }
}

/// The error where a required field is missing or not positive.
pub open spec fn required_error(
    order_type: Seq<char>,
    field: Seq<char>,
    value: Option<Decimal>,
) -> Option<GatewayErrorView> {
    match value {
        None => Some(missing_error(order_type, field)),
        Some(_) => not_positive_error(field, value),
    }
}

impl OrderRequest {
    /// What is wrong with the prices, given the order type: each type has the fields that it
    /// requires, which must be positive, and no others.
    pub open spec fn type_error(self) -> Option<GatewayErrorView> {
        match self.order_type {
            OrderType::Market => first_of(
                unexpected_error("Market"@, "limit_price"@, self.limit_price),
                first_of(
                    unexpected_error("Market"@, "stop_price"@, self.stop_price),
                    unexpected_error("Market"@, "trailing_distance"@, self.trailing_distance),
                ),
            ),
            OrderType::Limit => first_of(
                required_error("Limit"@, "limit_price"@, self.limit_price),
                first_of(
                    unexpected_error("Limit"@, "stop_price"@, self.stop_price),
                    unexpected_error("Limit"@, "trailing_distance"@, self.trailing_distance),
                ),
            ),
            OrderType::Stop => first_of(
                required_error("Stop"@, "stop_price"@, self.stop_price),
                first_of(
                    unexpected_error("Stop"@, "limit_price"@, self.limit_price),
                    unexpected_error("Stop"@, "trailing_distance"@, self.trailing_distance),
                ),
            ),
            OrderType::StopLimit => first_of(
                required_error("StopLimit"@, "stop_price"@, self.stop_price),
                first_of(
                    required_error("StopLimit"@, "limit_price"@, self.limit_price),
                    unexpected_error("StopLimit"@, "trailing_distance"@, self.trailing_distance),
                ),
            ),
            OrderType::TrailingStop => first_of(
                required_error("TrailingStop"@, "trailing_distance"@, self.trailing_distance),
                first_of(
                    self.trailing_error(),
                    first_of(
                        unexpected_error("TrailingStop"@, "limit_price"@, self.limit_price),
                        unexpected_error("TrailingStop"@, "stop_price"@, self.stop_price),
                    ),
                ),
            ),
        }
    }

    /// What is wrong with the trailing type: it must be given, and a distance in percent must
    /// be below 100.
    pub open spec fn trailing_error(self) -> Option<GatewayErrorView> {
        match (self.trailing_type, self.trailing_distance) {
            (None, _) => Some(missing_error("TrailingStop"@, "trailing_type"@)),
            (Some(TrailingType::Percent), Some(d)) => if d@ >= hundred() {
                Some(
                    value_error(
                        "trailing_distance"@,
                        "percent trailing distance must be less than 100"@,
                        d,
                    ),
                )
            } else {
                None
            },
            _ => None,
        }
    }

    /// What is wrong with the visible quantity: it must be positive and below the quantity.
    pub open spec fn display_error(self) -> Option<GatewayErrorView> {
        first_of(
            not_positive_error("display_quantity"@, self.display_quantity),
            match self.display_quantity {
                Some(dq) => if dq@ >= self.quantity@ {
                    Some(value_error("display_quantity"@, "must be less than quantity"@, dq))
                } else {
                    None
                },
                None => None,
            },
        )
    }

    /// The first thing that is wrong across the fields of a request.
    pub open spec fn semantics_error(self) -> Option<GatewayErrorView> {
        first_of(
            self.type_error(),
            first_of(
                not_positive_error("stop_loss"@, self.stop_loss),
                first_of(
                    not_positive_error("take_profit"@, self.take_profit),
                    first_of(
                        self.display_error(),
                        not_positive_error("leverage"@, self.leverage),
                    ),
                ),
            ),
        )
    }

    /// Whether a rule on a field is kept.
    pub open spec fn keeps(self, rule: FieldRule) -> bool {
        match rule {
            FieldRule::SymbolLength => 1 <= self.symbol@.len() <= 20,
            FieldRule::QuantityPositive => self.quantity@ > 0,
            FieldRule::ClientOrderIdLength => at_most_chars(self.client_order_id, 64),
            FieldRule::OcoGroupIdLength => at_most_chars(self.oco_group_id, 64),
        }
    }

    /// Create a market order
    pub fn market(symbol: &str, side: Side, quantity: Decimal) -> (r: OrderRequest)
        ensures
            r.symbol@ == symbol@,
            r == (OrderRequest {
                symbol: r.symbol,
                side,
                quantity,
                order_type: OrderType::Market,
                limit_price: None,
                stop_price: None,
                trailing_distance: None,
                trailing_type: None,
                stop_loss: None,
                take_profit: None,
                position_id: None,
                reduce_only: false,
                post_only: false,
                hidden: false,
                display_quantity: None,
                margin_mode: None,
                leverage: None,
                client_order_id: None,
                oco_group_id: None,
                time_in_force: TimeInForce::Gtc,
            }),
    {
        OrderRequest {
            symbol: symbol.to_owned(),
            side,
            quantity,
            order_type: OrderType::Market,
            limit_price: None,
            stop_price: None,
            trailing_distance: None,
            trailing_type: None,
            stop_loss: None,
            take_profit: None,
            position_id: None,
            reduce_only: false,
            post_only: false,
            hidden: false,
            display_quantity: None,
            margin_mode: None,
            leverage: None,
            client_order_id: None,
            oco_group_id: None,
            time_in_force: TimeInForce::Gtc,
        }
    }

    /// A market order request, with another order type and other prices.
    pub open spec fn is_plain(
        self,
        symbol: Seq<char>,
        side: Side,
        quantity: Decimal,
        order_type: OrderType,
        limit_price: Option<Decimal>,
        stop_price: Option<Decimal>,
    ) -> bool {
        &&& self.symbol@ == symbol
        &&& self == OrderRequest {
            symbol: self.symbol,
            side,
            quantity,
            order_type,
            limit_price,
            stop_price,
            trailing_distance: None,
            trailing_type: None,
            stop_loss: None,
            take_profit: None,
            position_id: None,
            reduce_only: false,
            post_only: false,
            hidden: false,
            display_quantity: None,
            margin_mode: None,
            leverage: None,
            client_order_id: None,
            oco_group_id: None,
            time_in_force: TimeInForce::Gtc,
        }
    }

    /// Create a limit order
    pub fn limit(symbol: &str, side: Side, quantity: Decimal, price: Decimal) -> (r: OrderRequest)
        ensures
            r.is_plain(symbol@, side, quantity, OrderType::Limit, Some(price), None),
    {
        let mut r = OrderRequest::market(symbol, side, quantity);
        r.order_type = OrderType::Limit;
        r.limit_price = Some(price);
        r
    }

    /// Create a stop order
    pub fn stop(symbol: &str, side: Side, quantity: Decimal, stop_price: Decimal) -> (
        r: OrderRequest)
        ensures
            r.is_plain(symbol@, side, quantity, OrderType::Stop, None, Some(stop_price)),
    {
        let mut r = OrderRequest::market(symbol, side, quantity);
        r.order_type = OrderType::Stop;
        r.stop_price = Some(stop_price);
        r
    }

    /// Create a stop-limit order
    pub fn stop_limit(
        symbol: &str,
        side: Side,
        quantity: Decimal,
        stop_price: Decimal,
        limit_price: Decimal,
    ) -> (r: OrderRequest)
        ensures
            r.is_plain(
                symbol@,
                side,
                quantity,
                OrderType::StopLimit,
                Some(limit_price),
                Some(stop_price),
            ),
    {
        let mut r = OrderRequest::market(symbol, side, quantity);
        r.order_type = OrderType::StopLimit;
        r.stop_price = Some(stop_price);
        r.limit_price = Some(limit_price);
        r
    }

    /// Add stop loss to this order (bracket order)
    pub fn with_stop_loss(self, price: Decimal) -> (r: OrderRequest)
        ensures
            r == (OrderRequest { stop_loss: Some(price), ..self }),
    {
        let mut r = self;
        r.stop_loss = Some(price);
        r
    }

    /// Add take profit to this order (bracket order)
    pub fn with_take_profit(self, price: Decimal) -> (r: OrderRequest)
        ensures
            r == (OrderRequest { take_profit: Some(price), ..self }),
    {
        let mut r = self;
        r.take_profit = Some(price);
        r
    }

    /// Set reduce-only flag
    pub fn reduce_only(self) -> (r: OrderRequest)
        ensures
            r == (OrderRequest { reduce_only: true, ..self }),
    {
        let mut r = self;
        r.reduce_only = true;
        r
    }

    /// Set post-only flag (maker only)
    pub fn post_only(self) -> (r: OrderRequest)
        ensures
            r == (OrderRequest { post_only: true, ..self }),
    {
        let mut r = self;
        r.post_only = true;
        r
    }

    /// Set hidden flag
    pub fn hidden(self) -> (r: OrderRequest)
        ensures
            r == (OrderRequest { hidden: true, ..self }),
    {
        let mut r = self;
        r.hidden = true;
        r
    }

    /// Set client order ID for idempotency
    pub fn with_client_id(self, id: &str) -> (r: OrderRequest)
        ensures
            r.client_order_id matches Some(s) && s@ == id@,
            r == (OrderRequest { client_order_id: r.client_order_id, ..self }),
    {
        let mut r = self;
        r.client_order_id = Some(id.to_owned());
        r
    }

    /// Set OCO group ID to link with another order.
    pub fn with_oco_group(self, group_id: &str) -> (r: OrderRequest)
        ensures
            r.oco_group_id matches Some(s) && s@ == group_id@,
            r == (OrderRequest { oco_group_id: r.oco_group_id, ..self }),
    {
        let mut r = self;
        r.oco_group_id = Some(group_id.to_owned());
        r
    }

    /// Set position ID (for hedging accounts)
    pub fn for_position(self, position_id: &str) -> (r: OrderRequest)
        ensures
            r.position_id matches Some(s) && s@ == position_id@,
            r == (OrderRequest { position_id: r.position_id, ..self }),
    {
        let mut r = self;
        r.position_id = Some(position_id.to_owned());
        r
    }

    /// Set margin mode
    pub fn with_margin_mode(self, mode: MarginMode) -> (r: OrderRequest)
        ensures
            r == (OrderRequest { margin_mode: Some(mode), ..self }),
    {
        let mut r = self;
        r.margin_mode = Some(mode);
        r
    }

    /// Set leverage
    pub fn with_leverage(self, leverage: Decimal) -> (r: OrderRequest)
        ensures
            r == (OrderRequest { leverage: Some(leverage), ..self }),
    {
        let mut r = self;
        r.leverage = Some(leverage);
        r
    }

    /// Set display quantity for iceberg orders
    pub fn with_display_quantity(self, qty: Decimal) -> (r: OrderRequest)
        ensures
            r == (OrderRequest { display_quantity: Some(qty), ..self }),
    {
        let mut r = self;
        r.display_quantity = Some(qty);
        r
    }

    /// Set time in force
    pub fn with_time_in_force(self, tif: TimeInForce) -> (r: OrderRequest)
        ensures
            r == (OrderRequest { time_in_force: tif, ..self }),
    {
        let mut r = self;
        r.time_in_force = tif;
        r
    }

    /// The rules on single fields that the request breaks, in the order of the fields.
    pub fn validate(&self) -> (broken: Vec<FieldRule>)
        ensures
            broken@ == seq![
                FieldRule::SymbolLength,
                FieldRule::QuantityPositive,
                FieldRule::ClientOrderIdLength,
                FieldRule::OcoGroupIdLength,
            ].filter(|rule: FieldRule| !self.keeps(rule)),
    {
        let mut broken: Vec<FieldRule> = Vec::new();
        let symbol_len: usize = self.symbol.as_str().unicode_len();
        if symbol_len < 1 || symbol_len > 20 {
            broken.push(FieldRule::SymbolLength);
        }
        if !self.quantity.is_positive() {
            broken.push(FieldRule::QuantityPositive);
        }
        if !has_at_most_chars(&self.client_order_id, 64) {
            broken.push(FieldRule::ClientOrderIdLength);
        }
        if !has_at_most_chars(&self.oco_group_id, 64) {
            broken.push(FieldRule::OcoGroupIdLength);
        }
        proof {
            let p = |rule: FieldRule| !self.keeps(rule);
            let rules = seq![
                FieldRule::SymbolLength,
                FieldRule::QuantityPositive,
                FieldRule::ClientOrderIdLength,
                FieldRule::OcoGroupIdLength,
            ];
            reveal_with_fuel(Seq::filter, 5);
            assert(rules.drop_last().drop_last().drop_last().drop_last().len() == 0);
            assert(broken@ =~= rules.filter(p));
        }
        broken
    }

    /// Validate cross-field semantics: order type vs required/forbidden price fields,
    /// bracket leg prices, display quantity, and leverage.
    pub fn validate_semantics(&self) -> (result: Result<(), GatewayError>)
        ensures
            match result {
                Ok(()) => self.semantics_error() is None,
                Err(e) => self.semantics_error() == Some(e@),
            },
    {
        match self.validate_order_type() {
            Err(e) => {
                return Err(e);
            },
            Ok(()) => {},
        }
        match reject_not_positive("stop_loss", self.stop_loss.as_ref()) {
            Err(e) => {
                return Err(e);
            },
            Ok(()) => {},
        }
        match reject_not_positive("take_profit", self.take_profit.as_ref()) {
            Err(e) => {
                return Err(e);
            },
            Ok(()) => {},
        }
        if let Some(dq) = self.display_quantity {
            match reject_not_positive("display_quantity", Some(&dq)) {
                Err(e) => {
                    return Err(e);
                },
                Ok(()) => {},
            }
            if !dq.less_than(&self.quantity) {
                return Err(invalid_value("display_quantity", "must be less than quantity", &dq));
            }
        }
        reject_not_positive("leverage", self.leverage.as_ref())
    }

    /// Validate the prices against the order type.
    fn validate_order_type(&self) -> (result: Result<(), GatewayError>)
        ensures
            match result {
                Ok(()) => self.type_error() is None,
                Err(e) => self.type_error() == Some(e@),
            },
    {
        match self.order_type {
            OrderType::Market => {
                match reject_unexpected("Market", "limit_price", self.limit_price.as_ref()) {
                    Err(e) => Err(e),
                    Ok(()) => match reject_unexpected(
                        "Market",
                        "stop_price",
                        self.stop_price.as_ref(),
                    ) {
                        Err(e) => Err(e),
                        Ok(()) => reject_unexpected(
                            "Market",
                            "trailing_distance",
                            self.trailing_distance.as_ref(),
                        ),
                    },
                }
            },
            OrderType::Limit => {
                match require_positive("Limit", "limit_price", self.limit_price.as_ref()) {
                    Err(e) => Err(e),
                    Ok(_) => match reject_unexpected(
                        "Limit",
                        "stop_price",
                        self.stop_price.as_ref(),
                    ) {
                        Err(e) => Err(e),
                        Ok(()) => reject_unexpected(
                            "Limit",
                            "trailing_distance",
                            self.trailing_distance.as_ref(),
                        ),
                    },
                }
            },
            OrderType::Stop => {
                match require_positive("Stop", "stop_price", self.stop_price.as_ref()) {
                    Err(e) => Err(e),
                    Ok(_) => match reject_unexpected(
                        "Stop",
                        "limit_price",
                        self.limit_price.as_ref(),
                    ) {
                        Err(e) => Err(e),
                        Ok(()) => reject_unexpected(
                            "Stop",
                            "trailing_distance",
                            self.trailing_distance.as_ref(),
                        ),
                    },
                }
            },
            OrderType::StopLimit => {
                match require_positive("StopLimit", "stop_price", self.stop_price.as_ref()) {
                    Err(e) => Err(e),
                    Ok(_) => match require_positive(
                        "StopLimit",
                        "limit_price",
                        self.limit_price.as_ref(),
                    ) {
                        Err(e) => Err(e),
                        Ok(_) => reject_unexpected(
                            "StopLimit",
                            "trailing_distance",
                            self.trailing_distance.as_ref(),
                        ),
                    },
                }
            },
            OrderType::TrailingStop => {
                let distance = match require_positive(
                    "TrailingStop",
                    "trailing_distance",
                    self.trailing_distance.as_ref(),
                ) {
                    Err(e) => {
                        return Err(e);
                    },
                    Ok(d) => d,
                };
                match self.trailing_type {
                    None => {
                        return Err(missing_field("TrailingStop", "trailing_type"));
                    },
                    Some(TrailingType::Percent) => {
                        if !distance.less_than(&Decimal::new(100, 0)) {
                            return Err(
                                invalid_value(
                                    "trailing_distance",
                                    "percent trailing distance must be less than 100",
                                    &distance,
                                ),
                            );
                        }
                    },
                    Some(TrailingType::Absolute) => {},
                }
                match reject_unexpected("TrailingStop", "limit_price", self.limit_price.as_ref()) {
                    Err(e) => Err(e),
                    Ok(()) => reject_unexpected(
                        "TrailingStop",
                        "stop_price",
                        self.stop_price.as_ref(),
                    ),
                }
            },
        }
    }
}

/// The number 100, in the units of a decimal's view.
pub open spec fn hundred() -> int {
    crate::decimal::in_units(100, 0)
}

/// Whether a text that may be absent has at most so many characters.
fn has_at_most_chars(text: &Option<String>, limit: usize) -> (fits: bool)
    ensures
        fits == at_most_chars(*text, limit as nat),
{
    match text {
        Some(s) => s.as_str().unicode_len() <= limit,
        None => true,
    }
}

/// Return `InvalidRequest` for a missing required field.
fn missing_field(order_type: &str, field: &str) -> (e: GatewayError)
    ensures
        e@ == missing_error(order_type@, field@),
{
    GatewayError::InvalidRequest {
        message: join3(order_type, " orders require ", field),
        field: Some(field.to_owned()),
    }
}

/// Return `InvalidValue` for a field whose value is refused.
fn invalid_value(field: &str, message: &str, value: &Decimal) -> (e: GatewayError)
    ensures
        e@ == value_error(field@, message@, *value),
{
    GatewayError::InvalidValue {
        field: field.to_owned(),
        message: message.to_owned(),
        provided: Some(value.to_text()),
    }
}

/// The view of a reference that may be absent.
pub open spec fn opt_deref(value: Option<&Decimal>) -> Option<Decimal> {
    match value {
        Some(v) => Some(*v),
        None => None,
    }
}

/// Reject an unexpected field that should not be set for this order type.
fn reject_unexpected(order_type: &str, field: &str, value: Option<&Decimal>) -> (result: Result<
    (),
    GatewayError,
>)
    ensures
        match result {
            Ok(()) => unexpected_error(order_type@, field@, opt_deref(value)) is None,
            Err(e) => unexpected_error(order_type@, field@, opt_deref(value)) == Some(e@),
        },
{
    if let Some(v) = value {
        let message = join3(order_type, " orders should not have ", field);
        return Err(invalid_value(field, message.as_str(), v));
    }
    Ok(())
}

/// Reject a field that is set and not positive.
fn reject_not_positive(field: &str, value: Option<&Decimal>) -> (result: Result<(), GatewayError>)
    ensures
        match result {
            Ok(()) => not_positive_error(field@, opt_deref(value)) is None,
            Err(e) => not_positive_error(field@, opt_deref(value)) == Some(e@),
        },
{
    if let Some(v) = value {
        if !v.is_positive() {
            return Err(invalid_value(field, "must be positive", v));
        }
    }
    Ok(())
}

/// Require a field to be present and positive. Returns the value on success.
fn require_positive(order_type: &str, field: &str, value: Option<&Decimal>) -> (result: Result<
    Decimal,
    GatewayError,
>)
    ensures
        match result {
            Ok(v) => required_error(order_type@, field@, opt_deref(value)) is None && opt_deref(
                value,
            ) == Some(v),
            Err(e) => required_error(order_type@, field@, opt_deref(value)) == Some(e@),
        },
{
    match value {
        None => Err(missing_field(order_type, field)),
        Some(v) => {
            if v.is_positive() {
                Ok(*v)
            } else {
                Err(invalid_value(field, "must be positive", v))
            }
        },
    }
}

/// Minimal response after order submission.
#[derive(Debug)]
pub struct OrderHandle {
    /// Server-assigned order ID
    pub id: String,
    /// Client-provided order ID (if any)
    pub client_order_id: Option<String>,
    /// Gateway-assigned correlation ID for tracing this order through its lifecycle.
    pub correlation_id: Option<String>,
    /// Initial order status
    pub status: OrderStatus,
}

impl Clone for OrderHandle {
    fn clone(&self) -> (copy: OrderHandle)
        ensures
            copy == *self,
    {
        OrderHandle {
            id: self.id.clone(),
            client_order_id: self.client_order_id.clone(),
            correlation_id: self.correlation_id.clone(),
            status: self.status,
        }
    }
}

/// Full order details.
#[derive(Debug)]
pub struct Order {
    /// Server-assigned order ID
    pub id: String,
    /// Client-provided order ID (if any)
    pub client_order_id: Option<String>,
    /// Trading symbol
    pub symbol: String,
    /// Order side
    pub side: Side,
    /// Order type
    pub order_type: OrderType,
    /// Original order quantity
    pub quantity: Decimal,
    /// Quantity filled so far
    pub filled_quantity: Decimal,
    /// Quantity remaining
    pub remaining_quantity: Decimal,
    /// Limit price (for LIMIT and `STOP_LIMIT` orders)
    pub limit_price: Option<Decimal>,
    /// Stop price (for STOP and `STOP_LIMIT` orders)
    pub stop_price: Option<Decimal>,
    /// Stop loss price (for bracket orders)
    pub stop_loss: Option<Decimal>,
    /// Take profit price (for bracket orders)
    pub take_profit: Option<Decimal>,
    /// Trailing distance (for trailing stop orders)
    pub trailing_distance: Option<Decimal>,
    /// Trailing type (absolute or percent)
    pub trailing_type: Option<TrailingType>,
    /// Weighted average fill price
    pub average_fill_price: Option<Decimal>,
    /// Current order status
    pub status: OrderStatus,
    /// Rejection reason (if status is REJECTED)
    pub reject_reason: Option<RejectReason>,
    /// Associated position ID (for hedging accounts)
    pub position_id: Option<String>,
    /// Whether this is a reduce-only order
    pub reduce_only: Option<bool>,
    /// Whether this is a post-only order
    pub post_only: Option<bool>,
    /// Whether this is a hidden order
    pub hidden: Option<bool>,
    /// Display quantity for iceberg orders
    pub display_quantity: Option<Decimal>,
    /// OCO group ID if this order is part of an OCO pair.
    pub oco_group_id: Option<String>,
    /// Gateway-assigned correlation ID for tracing this order through its lifecycle.
    pub correlation_id: Option<String>,
    /// Time in force
    pub time_in_force: TimeInForce,
    /// When the order was created
    pub created_at: Timestamp,
    /// When the order was last updated
    pub updated_at: Timestamp,
}

impl Clone for Order {
    fn clone(&self) -> (copy: Order)
        ensures
            copy == *self,
    {
        Order {
            id: self.id.clone(),
            client_order_id: self.client_order_id.clone(),
            symbol: self.symbol.clone(),
            side: self.side,
            order_type: self.order_type,
            quantity: self.quantity,
            filled_quantity: self.filled_quantity,
            remaining_quantity: self.remaining_quantity,
            limit_price: self.limit_price,
            stop_price: self.stop_price,
            stop_loss: self.stop_loss,
            take_profit: self.take_profit,
            trailing_distance: self.trailing_distance,
            trailing_type: self.trailing_type,
            average_fill_price: self.average_fill_price,
            status: self.status,
            reject_reason: self.reject_reason,
            position_id: self.position_id.clone(),
            reduce_only: self.reduce_only,
            post_only: self.post_only,
            hidden: self.hidden,
            display_quantity: self.display_quantity,
            oco_group_id: self.oco_group_id.clone(),
            correlation_id: self.correlation_id.clone(),
            time_in_force: self.time_in_force,
            created_at: self.created_at,
            updated_at: self.updated_at,
        }
    }
}

/// Request to modify an existing order.
#[derive(Debug, Clone, Copy)]
pub struct ModifyOrderRequest {
    /// New limit price
    pub limit_price: Option<Decimal>,
    /// New stop price
    pub stop_price: Option<Decimal>,
    /// New total quantity (must be >= `filled_quantity`)
    pub quantity: Option<Decimal>,
    /// New stop loss price
    pub stop_loss: Option<Decimal>,
    /// New take profit price
    pub take_profit: Option<Decimal>,
    /// New trailing distance
    pub trailing_distance: Option<Decimal>,
}

impl Default for ModifyOrderRequest {
    fn default() -> (r: ModifyOrderRequest)
        ensures
            r == (ModifyOrderRequest {
                limit_price: None,
                stop_price: None,
                quantity: None,
                stop_loss: None,
                take_profit: None,
                trailing_distance: None,
            }),
    {
        ModifyOrderRequest {
            limit_price: None,
            stop_price: None,
            quantity: None,
            stop_loss: None,
            take_profit: None,
            trailing_distance: None,
        }
    }
}

/// Result of modifying an order.
///
/// Some providers (e.g., Alpaca) implement modify as cancel-replace,
/// which may result in a new order ID.
#[derive(Debug, Clone)]
pub struct ModifyOrderResult {
    /// The modified (or replacement) order
    pub order: Order,
    /// Previous order ID if the provider used cancel-replace.
    /// `None` if the order was modified in-place.
    pub previous_order_id: Option<String>,
}

/// Query parameters for listing orders.
#[derive(Debug, Clone)]
pub struct OrderQueryParams {
    /// Filter by symbol
    pub symbol: Option<String>,
    /// Filter by status (multiple allowed, accepts comma-separated values)
    pub status: Option<Vec<OrderStatus>>,
    /// Filter by side
    pub side: Option<Side>,
    /// Filter by client order ID
    pub client_order_id: Option<String>,
    /// Filter by OCO group ID
    pub oco_group_id: Option<String>,
    /// Filter orders created after this time
    pub since: Option<Timestamp>,
    /// Filter orders created before this time
    pub until: Option<Timestamp>,
    /// Maximum number of orders to return
    pub limit: Option<u32>,
}

impl Default for OrderQueryParams {
    fn default() -> (p: OrderQueryParams)
        ensures
            p == (OrderQueryParams {
                symbol: None,
                status: None,
                side: None,
                client_order_id: None,
                oco_group_id: None,
                since: None,
                until: None,
                limit: None,
            }),
    {
        OrderQueryParams {
            symbol: None,
            status: None,
            side: None,
            client_order_id: None,
            oco_group_id: None,
            since: None,
            until: None,
            limit: None,
        }
    }
}

/// The pieces of the values of a status filter, in order.
pub open spec fn filter_pieces(values: Seq<Seq<char>>) -> Seq<Seq<char>>
    decreases values.len(),
{
    if values.len() == 0 {
        Seq::empty()
    } else {
        filter_pieces(values.drop_last()) + comma_pieces(values.last())
    }
}

/// The statuses that pieces name, blank ones left out, or the first that names none.
pub open spec fn statuses_of(pieces: Seq<Seq<char>>) -> Result<Seq<OrderStatus>, Seq<char>>
    decreases pieces.len(),
{
    if pieces.len() == 0 {
        Ok(Seq::empty())
    } else {
        match statuses_of(pieces.drop_last()) {
            Err(bad) => Err(bad),
            Ok(before) => {
                let name = trimmed(pieces.last());
                if name.len() == 0 {
                    Ok(before)
                } else {
                    match OrderStatus::spec_of_wire(name) {
                        Some(status) => Ok(before.push(status)),
                        None => Err(name),
                    }
                }
            },
        }
    }
}

/// Splits a text at its commas.
fn split_commas(text: &str) -> (pieces: Vec<String>)
    ensures
        texts(pieces@) == comma_pieces(text@),
{
    let mut pieces: Vec<String> = Vec::new();
    let len: usize = text.unicode_len();
    let mut start: usize = 0;
    proof {
        reveal_strlit(",");
        assert(","@ =~= seq![',']);
        assert(text@.skip(0) =~= text@);
        assert(texts(pieces@) + comma_pieces(text@.skip(0)) =~= comma_pieces(text@));
    }
    loop
        invariant
            len == text@.len(),
            start <= len,
            ","@ == seq![','],
            texts(pieces@) + comma_pieces(text@.skip(start as int)) == comma_pieces(text@),
        decreases len - start,
    {
        let rest = text.substring_char(start, len);
        assert(rest@ =~= text@.skip(start as int));
        let ghost before = pieces@;
        match find(rest, ",", 0) {
            None => {
                pieces.push(rest.to_owned());
                proof {
                    assert(texts(pieces@) =~= texts(before).push(rest@));
                    assert(texts(pieces@) =~= texts(before) + comma_pieces(rest@));
                }
                return pieces;
            },
            Some(at) => {
                let piece = rest.substring_char(0, at);
                pieces.push(piece.to_owned());
                proof {
                    assert(piece@ =~= rest@.take(at as int));
                    assert(text@.skip(start + at + 1) =~= rest@.skip(at + 1));
                    assert(texts(pieces@) =~= texts(before).push(piece@));
                    assert(texts(pieces@) + comma_pieces(text@.skip(start + at + 1)) =~= texts(
                        before,
                    ) + comma_pieces(rest@));
                }
                start = start + at + 1;
            },
        }
    }
}

/// Read the status filter of an order query: values that each hold one status or several,
/// separated by commas. A filter without a status is no filter; what is not a status is
/// handed back.
pub fn parse_status_filter(values: &Vec<String>) -> (filter: Result<
    Option<Vec<OrderStatus>>,
    String,
>)
    ensures
        match filter {
            Ok(Some(list)) => statuses_of(filter_pieces(texts(values@))) == Ok::<
                Seq<OrderStatus>,
                Seq<char>,
            >(list@) && list@.len() > 0,
            Ok(None) => statuses_of(filter_pieces(texts(values@))) == Ok::<
                Seq<OrderStatus>,
                Seq<char>,
            >(Seq::empty()),
            Err(bad) => statuses_of(filter_pieces(texts(values@))) == Err::<
                Seq<OrderStatus>,
                Seq<char>,
            >(bad@),
        },
{
    let mut pieces: Vec<String> = Vec::new();
    let mut i: usize = 0;
    while i < values.len()
        invariant
            i <= values.len(),
            texts(pieces@) == filter_pieces(texts(values@.take(i as int))),
        decreases values.len() - i,
    {
        let ghost before = pieces@;
        let mut more = split_commas(values[i].as_str());
        let ghost added = more@;
        pieces.append(&mut more);
        proof {
            assert(texts(pieces@) =~= texts(before) + texts(added));
            let longer = texts(values@.take(i + 1));
            assert(longer.drop_last() =~= texts(values@.take(i as int)));
            assert(longer.last() == values@[i as int]@);
        }
        i = i + 1;
    }
    assert(values@.take(i as int) =~= values@);

    let mut list: Vec<OrderStatus> = Vec::new();
    let mut k: usize = 0;
    while k < pieces.len()
        invariant
            k <= pieces.len(),
            texts(pieces@) == filter_pieces(texts(values@)),
            statuses_of(texts(pieces@.take(k as int))) == Ok::<Seq<OrderStatus>, Seq<char>>(list@),
        decreases pieces.len() - k,
    {
        let name = trim(pieces[k].as_str());
        proof {
            let longer = texts(pieces@.take(k + 1));
            assert(longer.drop_last() =~= texts(pieces@.take(k as int)));
            assert(longer.last() == pieces@[k as int]@);
        }
        if !name.is_empty() {
            match OrderStatus::of_wire(name) {
                Some(status) => {
                    list.push(status);
                },
                None => {
                    proof {
                        let longer = texts(pieces@.take(k + 1));
                        assert(statuses_of(longer) == Err::<Seq<OrderStatus>, Seq<char>>(name@));
                        assert(texts(pieces@).take(k + 1) =~= longer);
                        lemma_statuses_stop(texts(pieces@), k + 1);
                    }
                    return Err(name.to_owned());
                },
            }
        }
        k = k + 1;
    }
    assert(pieces@.take(k as int) =~= pieces@);
    if list.len() == 0 {
        assert(list@ =~= Seq::<OrderStatus>::empty());
        Ok(None)
    } else {
        Ok(Some(list))
    }
}

/// Once a piece names no status, the pieces behind it do not matter.
proof fn lemma_statuses_stop(pieces: Seq<Seq<char>>, n: int)
    requires
        0 <= n <= pieces.len(),
        statuses_of(pieces.take(n)) is Err,
    ensures
        statuses_of(pieces) == statuses_of(pieces.take(n)),
    decreases pieces.len(),
{
    if n == pieces.len() {
        assert(pieces.take(n) =~= pieces);
    } else {
        assert(pieces.drop_last().take(n) =~= pieces.take(n));
        lemma_statuses_stop(pieces.drop_last(), n);
    }
}

/// Result of cancelling an order.
#[derive(Debug, Clone)]
pub struct CancelOrderResult {
    /// Whether cancellation succeeded
    pub success: bool,
    /// Updated order state
    pub order: Order,
}

/// Result of cancelling multiple orders.
#[derive(Debug, Clone)]
pub struct CancelAllResult {
    /// Number of orders successfully cancelled
    pub cancelled_count: u32,
    /// Number of orders that failed to cancel
    pub failed_count: u32,
    /// IDs of orders that failed to cancel
    pub failed_order_ids: Option<Vec<String>>,
}

/// The orders that the constructors make are never refused for what they hold, as long as their
/// prices are positive.
pub proof fn law_built_orders_make_sense(
    r: OrderRequest,
    symbol: Seq<char>,
    side: Side,
    quantity: Decimal,
    price: Decimal,
    stop_price: Decimal,
)
    requires
        price@ > 0,
        stop_price@ > 0,
        r.is_plain(symbol, side, quantity, OrderType::Market, None, None)
            || r.is_plain(symbol, side, quantity, OrderType::Limit, Some(price), None)
            || r.is_plain(symbol, side, quantity, OrderType::Stop, None, Some(stop_price))
            || r.is_plain(
            symbol,
            side,
            quantity,
            OrderType::StopLimit,
            Some(price),
            Some(stop_price),
        ),
    ensures
        r.semantics_error() is None,
{
}

} // verus!
