//! What holds of orders, platforms and the names of things.

use vstd::prelude::*;
use crate::decimal::{Decimal, lemma_parts};
use crate::error::GatewayErrorView;
use crate::json::{JsonView, says, text_items};
use crate::text::{digits, texts, trimmed};
use super::bar::Timeframe;
use super::order::{FieldRule, OrderRequest, filter_pieces, statuses_of};
use super::platform::{TradingPlatform, TradingPlatformKind};
use super::system::{ProviderHealth, providers_json};
use super::{OrderStatus, OrderType, Side, TimeInForce, TrailingType};

verus! {

// ---------------------------------------------------------------------------------------
// Order requests
// ---------------------------------------------------------------------------------------

/// Whether a price is given and above zero.
pub open spec fn is_priced(price: Option<Decimal>) -> bool {
    price matches Some(p) && p@ > 0
}

/// Whether a price that is given is above zero.
pub open spec fn is_absent_or_priced(price: Option<Decimal>) -> bool {
    price matches Some(p) ==> p@ > 0
}

/// Whether an order has the prices of its type, all above zero, and no others: a limit order is
/// sold or bought at its limit, a stop order rests at its stop, a trailing stop at a distance.
pub open spec fn is_priced_for_its_type(r: OrderRequest) -> bool {
    match r.order_type {
        OrderType::Market => r.limit_price is None && r.stop_price is None
            && r.trailing_distance is None,
        OrderType::Limit => is_priced(r.limit_price) && r.stop_price is None
            && r.trailing_distance is None,
        OrderType::Stop => is_priced(r.stop_price) && r.limit_price is None
            && r.trailing_distance is None,
        OrderType::StopLimit => is_priced(r.stop_price) && is_priced(r.limit_price)
            && r.trailing_distance is None,
        OrderType::TrailingStop => is_priced(r.trailing_distance) && r.limit_price is None
            && r.stop_price is None && r.trailing_type is Some && (r.trailing_type == Some(
            TrailingType::Percent,
        ) ==> r.trailing_distance->0@ < Decimal::of_parts(100, 0)@),
    }
}

/// A request is accepted exactly where it has the prices of its type and no others, its legs and
/// its leverage are above zero where it has them, and it shows some but not all of its quantity
/// where it shows a part.
pub proof fn law_which_requests_make_sense(r: OrderRequest)
    ensures
        r.semantics_error() is None <==> is_priced_for_its_type(r) && is_absent_or_priced(r.stop_loss)
            && is_absent_or_priced(r.take_profit) && is_absent_or_priced(r.leverage) && (
        r.display_quantity matches Some(shown) ==> 0 < shown@ < r.quantity@),
{
    lemma_parts(Decimal::of_parts(100, 0), 100, 0);
}

/// A refusal names a field: as missing where the order type needs it and it is not given, and as
/// invalid with the value that was given otherwise.
pub proof fn law_refusal_names_the_field(r: OrderRequest)
    ensures
        r.semantics_error() matches Some(e) ==> (e matches GatewayErrorView::InvalidRequest {
            field,
            ..
        } && field is Some) || (e matches GatewayErrorView::InvalidValue { provided, .. }
            && provided is Some),
        r.order_type == OrderType::Limit && r.limit_price is None ==> (
        r.semantics_error() matches Some(GatewayErrorView::InvalidRequest { field, .. }) && field
            == Some("limit_price"@)),
        (r.order_type == OrderType::Stop || r.order_type == OrderType::StopLimit) && r.stop_price
            is None ==> (r.semantics_error() matches Some(
            GatewayErrorView::InvalidRequest { field, .. },
        ) && field == Some("stop_price"@)),
        r.order_type == OrderType::TrailingStop && r.trailing_distance is None ==> (
        r.semantics_error() matches Some(GatewayErrorView::InvalidRequest { field, .. }) && field
            == Some("trailing_distance"@)),
        r.order_type == OrderType::Market && r.limit_price is Some ==> (
        r.semantics_error() matches Some(GatewayErrorView::InvalidValue { field, provided, .. })
            && field == "limit_price"@ && provided == Some(r.limit_price->0.spec_text())),
        is_priced_for_its_type(r) && (r.stop_loss matches Some(p) && p@ <= 0) ==> (
        r.semantics_error() matches Some(GatewayErrorView::InvalidValue { field, provided, .. })
            && field == "stop_loss"@ && provided == Some(r.stop_loss->0.spec_text())),
        is_priced_for_its_type(r) && is_absent_or_priced(r.stop_loss) && (r.take_profit matches Some(
            p,
        ) && p@ <= 0) ==> (r.semantics_error() matches Some(
            GatewayErrorView::InvalidValue { field, provided, .. },
        ) && field == "take_profit"@ && provided == Some(r.take_profit->0.spec_text())),
        is_priced_for_its_type(r) && is_absent_or_priced(r.stop_loss) && is_absent_or_priced(
            r.take_profit,
        ) && (r.display_quantity matches Some(q) && (q@ <= 0 || q@ >= r.quantity@)) ==> (
        r.semantics_error() matches Some(GatewayErrorView::InvalidValue { field, provided, .. })
            && field == "display_quantity"@ && provided == Some(r.display_quantity->0.spec_text())),
{
    lemma_parts(Decimal::of_parts(100, 0), 100, 0);
}

/// A symbol has between one and twenty characters, a quantity is above zero, and neither an ID of
/// the client nor that of a group has more than sixty-four characters.
pub proof fn law_field_rules(r: OrderRequest)
    ensures
        r.keeps(FieldRule::SymbolLength) <==> r.symbol@.len() >= 1 && r.symbol@.len() <= 20,
        r.keeps(FieldRule::QuantityPositive) <==> r.quantity@ > 0,
        r.keeps(FieldRule::ClientOrderIdLength) <==> (r.client_order_id matches Some(id)
            ==> id@.len() <= 64),
        r.keeps(FieldRule::OcoGroupIdLength) <==> (r.oco_group_id matches Some(id) ==> id@.len()
            <= 64),
{
}

// ---------------------------------------------------------------------------------------
// Status filters
// ---------------------------------------------------------------------------------------

/// A status filter is read piece by piece: a piece that names a status adds it at the end, a blank
/// piece adds nothing, and the first piece that names none is handed back, whatever comes after.
pub proof fn law_status_filter_is_read_in_order(pieces: Seq<Seq<char>>, piece: Seq<char>)
    ensures
        statuses_of(Seq::empty()) == Ok::<Seq<OrderStatus>, Seq<char>>(Seq::empty()),
        statuses_of(pieces) is Err ==> statuses_of(pieces.push(piece)) == statuses_of(pieces),
        statuses_of(pieces) matches Ok(list) ==> {
            let next = statuses_of(pieces.push(piece));
            &&& trimmed(piece).len() == 0 ==> next == Ok::<Seq<OrderStatus>, Seq<char>>(list)
            &&& trimmed(piece).len() > 0 ==> match OrderStatus::spec_of_wire(trimmed(piece)) {
                Some(status) => next == Ok::<Seq<OrderStatus>, Seq<char>>(list.push(status)),
                None => next == Err::<Seq<OrderStatus>, Seq<char>>(trimmed(piece)),
            }
        },
{
    assert(pieces.push(piece).drop_last() =~= pieces);
    assert(pieces.push(piece).last() == piece);
}

/// The pieces of several values are those of each, one value after the other.
pub proof fn law_filter_values_are_split_one_by_one(values: Seq<Seq<char>>, value: Seq<char>)
    ensures
        filter_pieces(Seq::empty()).len() == 0,
        filter_pieces(values.push(value)) == filter_pieces(values) + crate::text::comma_pieces(value),
{
    assert(values.push(value).drop_last() =~= values);
}

// ---------------------------------------------------------------------------------------
// Wire names
// ---------------------------------------------------------------------------------------

/// A side is read from its name in capitals or in small letters, and from nothing else; what is
/// written of a side is read back as that side.
pub proof fn law_sides_on_the_wire(name: Seq<char>, side: Side)
    ensures
        Side::spec_of_wire(name) == Some(Side::Buy) <==> name == "BUY"@ || name == "buy"@,
        Side::spec_of_wire(name) == Some(Side::Sell) <==> name == "SELL"@ || name == "sell"@,
        Side::spec_of_wire(side.spec_wire()) == Some(side),
{
    reveal_strlit("BUY");
    reveal_strlit("buy");
    reveal_strlit("SELL");
    reveal_strlit("sell");
    assert("BUY"@.len() == 3 && "buy"@.len() == 3 && "SELL"@.len() == 4 && "sell"@.len() == 4);
}

/// An order type is read from its name in capitals or in small letters, and from nothing else.
pub proof fn law_order_types_on_the_wire(name: Seq<char>)
    ensures
        OrderType::spec_of_wire(name) == Some(OrderType::Market) <==> name == "MARKET"@ || name
            == "market"@,
        OrderType::spec_of_wire(name) == Some(OrderType::Limit) <==> name == "LIMIT"@ || name
            == "limit"@,
        OrderType::spec_of_wire(name) == Some(OrderType::Stop) <==> name == "STOP"@ || name
            == "stop"@,
        OrderType::spec_of_wire(name) == Some(OrderType::StopLimit) <==> name == "STOP_LIMIT"@
            || name == "stop_limit"@,
        OrderType::spec_of_wire(name) == Some(OrderType::TrailingStop) <==> name
            == "TRAILING_STOP"@ || name == "trailing_stop"@,
{
    reveal_strlit("MARKET");
    reveal_strlit("market");
    reveal_strlit("LIMIT");
    reveal_strlit("limit");
    reveal_strlit("STOP");
    reveal_strlit("stop");
    reveal_strlit("STOP_LIMIT");
    reveal_strlit("stop_limit");
    reveal_strlit("TRAILING_STOP");
    reveal_strlit("trailing_stop");
    assert("MARKET"@.len() == 6 && "market"@.len() == 6);
    assert("LIMIT"@.len() == 5 && "limit"@.len() == 5);
    assert("STOP"@.len() == 4 && "stop"@.len() == 4);
    assert("STOP_LIMIT"@.len() == 10 && "stop_limit"@.len() == 10);
    assert("TRAILING_STOP"@.len() == 13 && "trailing_stop"@.len() == 13);
}

/// A time in force is read from its name in capitals or in small letters, and from nothing else.
pub proof fn law_times_in_force_on_the_wire(name: Seq<char>)
    ensures
        TimeInForce::spec_of_wire(name) == Some(TimeInForce::Gtc) <==> name == "GTC"@ || name
            == "gtc"@,
        TimeInForce::spec_of_wire(name) == Some(TimeInForce::Day) <==> name == "DAY"@ || name
            == "day"@,
        TimeInForce::spec_of_wire(name) == Some(TimeInForce::Ioc) <==> name == "IOC"@ || name
            == "ioc"@,
        TimeInForce::spec_of_wire(name) == Some(TimeInForce::Fok) <==> name == "FOK"@ || name
            == "fok"@,
{
    reveal_strlit("GTC");
    reveal_strlit("gtc");
    reveal_strlit("DAY");
    reveal_strlit("day");
    reveal_strlit("IOC");
    reveal_strlit("ioc");
    reveal_strlit("FOK");
    reveal_strlit("fok");
    assert("GTC"@[0] == 'G' && "gtc"@[0] == 'g');
    assert("DAY"@[0] == 'D' && "day"@[0] == 'd');
    assert("IOC"@[0] == 'I' && "ioc"@[0] == 'i');
    assert("FOK"@[0] == 'F' && "fok"@[0] == 'f');
}

/// A status is read from its name in capitals, and from nothing else.
pub proof fn law_statuses_on_the_wire(name: Seq<char>)
    ensures
        OrderStatus::spec_of_wire(name) == Some(OrderStatus::Pending) <==> name == "PENDING"@,
        OrderStatus::spec_of_wire(name) == Some(OrderStatus::PendingCancel) <==> name
            == "PENDING_CANCEL"@,
        OrderStatus::spec_of_wire(name) == Some(OrderStatus::Open) <==> name == "OPEN"@,
        OrderStatus::spec_of_wire(name) == Some(OrderStatus::PartiallyFilled) <==> name
            == "PARTIALLY_FILLED"@,
        OrderStatus::spec_of_wire(name) == Some(OrderStatus::Filled) <==> name == "FILLED"@,
        OrderStatus::spec_of_wire(name) == Some(OrderStatus::Cancelled) <==> name == "CANCELLED"@,
        OrderStatus::spec_of_wire(name) == Some(OrderStatus::Rejected) <==> name == "REJECTED"@,
        OrderStatus::spec_of_wire(name) == Some(OrderStatus::Expired) <==> name == "EXPIRED"@,
{
    reveal_strlit("PENDING");
    reveal_strlit("PENDING_CANCEL");
    reveal_strlit("OPEN");
    reveal_strlit("PARTIALLY_FILLED");
    reveal_strlit("FILLED");
    reveal_strlit("CANCELLED");
    reveal_strlit("REJECTED");
    reveal_strlit("EXPIRED");
    assert("PENDING"@.len() == 7 && "EXPIRED"@.len() == 7);
    assert("PENDING"@[0] == 'P' && "EXPIRED"@[0] == 'E');
    assert("PENDING_CANCEL"@.len() == 14);
    assert("OPEN"@.len() == 4);
    assert("PARTIALLY_FILLED"@.len() == 16);
    assert("FILLED"@.len() == 6);
    assert("CANCELLED"@.len() == 9);
    assert("REJECTED"@.len() == 8);
}

// ---------------------------------------------------------------------------------------
// Timeframes
// ---------------------------------------------------------------------------------------

/// Whether a text is a number and a letter.
pub open spec fn reads(text: Seq<char>, n: nat, unit: char) -> bool {
    text == digits(n).push(unit)
}

/// A timeframe is as long as it is written: a number of minutes, hours, days or weeks.
pub proof fn law_timeframe_is_as_written(frame: Timeframe)
    ensures
        exists|n: nat, unit: char|
            #[trigger] reads(frame.spec_text(), n, unit) && match unit {
                'm' => frame.minutes() == n,
                'h' => frame.minutes() == 60 * n,
                'd' => frame.minutes() == 24 * 60 * n,
                'w' => frame.minutes() == 7 * 24 * 60 * n,
                _ => false,
            },
{
    reveal_with_fuel(digits, 3);
    reveal_strlit("1m");
    reveal_strlit("2m");
    reveal_strlit("5m");
    reveal_strlit("10m");
    reveal_strlit("15m");
    reveal_strlit("30m");
    reveal_strlit("1h");
    reveal_strlit("2h");
    reveal_strlit("4h");
    reveal_strlit("12h");
    reveal_strlit("1d");
    reveal_strlit("1w");
    let (n, unit): (nat, char) = match frame {
        Timeframe::OneMinute => (1, 'm'),
        Timeframe::TwoMinutes => (2, 'm'),
        Timeframe::FiveMinutes => (5, 'm'),
        Timeframe::TenMinutes => (10, 'm'),
        Timeframe::FifteenMinutes => (15, 'm'),
        Timeframe::ThirtyMinutes => (30, 'm'),
        Timeframe::OneHour => (1, 'h'),
        Timeframe::TwoHours => (2, 'h'),
        Timeframe::FourHours => (4, 'h'),
        Timeframe::TwelveHours => (12, 'h'),
        Timeframe::OneDay => (1, 'd'),
        Timeframe::OneWeek => (1, 'w'),
    };
    assert(frame.spec_text() =~= digits(n).push(unit));
    assert(reads(frame.spec_text(), n, unit));
}

// ---------------------------------------------------------------------------------------
// Platforms
// ---------------------------------------------------------------------------------------

/// Whether a text ends in another.
pub open spec fn ends_in(text: Seq<char>, end: Seq<char>) -> bool {
    text.len() >= end.len() && text.skip(text.len() - end.len()) == end
}

/// A platform trades real money exactly where its identifier ends in `-live`.
pub proof fn law_live_platforms_end_in_live(p: TradingPlatform)
    ensures
        p.spec_live() <==> ends_in(p.spec_header(), "-live"@),
{
    reveal_strlit("-live");
    let end = "-live"@;
    let text = p.spec_header();
    match p {
        TradingPlatform::AlpacaLive => {
            reveal_strlit("alpaca-live");
            assert(text.skip(6) =~= end);
        },
        TradingPlatform::AlpacaPaper => {
            reveal_strlit("alpaca-paper");
            assert(text.skip(7)[0] != end[0]);
        },
        TradingPlatform::BinanceSpotLive => {
            reveal_strlit("binance-spot-live");
            assert(text.skip(12) =~= end);
        },
        TradingPlatform::BinanceSpotTestnet => {
            reveal_strlit("binance-spot-testnet");
            assert(text.skip(15)[0] != end[0]);
        },
        TradingPlatform::BinanceFuturesLive => {
            reveal_strlit("binance-futures-live");
            assert(text.skip(15) =~= end);
        },
        TradingPlatform::BinanceFuturesTestnet => {
            reveal_strlit("binance-futures-testnet");
            assert(text.skip(18)[0] != end[0]);
        },
        TradingPlatform::BinanceMarginLive => {
            reveal_strlit("binance-margin-live");
            assert(text.skip(14) =~= end);
        },
        TradingPlatform::BinanceMarginTestnet => {
            reveal_strlit("binance-margin-testnet");
            assert(text.skip(17)[0] != end[0]);
        },
        TradingPlatform::BinanceCoinFuturesLive => {
            reveal_strlit("binance-coin-futures-live");
            assert(text.skip(20) =~= end);
        },
        TradingPlatform::BinanceCoinFuturesTestnet => {
            reveal_strlit("binance-coin-futures-testnet");
            assert(text.skip(23)[0] != end[0]);
        },
        TradingPlatform::OandaPractice => {
            reveal_strlit("oanda-practice");
            assert(text.skip(9)[0] != end[0]);
        },
        TradingPlatform::OandaLive => {
            reveal_strlit("oanda-live");
            assert(text.skip(5) =~= end);
        },
        TradingPlatform::SaxoSim => {
            reveal_strlit("saxo-sim");
            assert(text.skip(3)[0] != end[0]);
        },
        TradingPlatform::SaxoLive => {
            reveal_strlit("saxo-live");
            assert(text.skip(4) =~= end);
        },
        TradingPlatform::Tektii => {
            reveal_strlit("tektii");
            assert(text.skip(1)[0] != end[0]);
        },
        TradingPlatform::Mock => {
            reveal_strlit("mock");
            assert(text.len() < end.len());
        },
    }
}

/// A platform trades real money exactly where what is shown of it says so.
pub proof fn law_live_platforms_are_shown_as_live(p: TradingPlatform)
    ensures
        p.spec_live() <==> ends_in(p.spec_display_name(), "(Live)"@),
{
    reveal_strlit("(Live)");
    let end = "(Live)"@;
    let text = p.spec_display_name();
    match p {
        TradingPlatform::AlpacaLive => {
            reveal_strlit("Alpaca (Live)");
            assert(text.skip(7) =~= end);
        },
        TradingPlatform::AlpacaPaper => {
            reveal_strlit("Alpaca (Paper)");
            assert(text.skip(8)[0] != end[0]);
        },
        TradingPlatform::BinanceSpotLive => {
            reveal_strlit("Binance Spot (Live)");
            assert(text.skip(13) =~= end);
        },
        TradingPlatform::BinanceSpotTestnet => {
            reveal_strlit("Binance Spot (Testnet)");
            assert(text.skip(16)[0] != end[0]);
        },
        TradingPlatform::BinanceFuturesLive => {
            reveal_strlit("Binance Futures (Live)");
            assert(text.skip(16) =~= end);
        },
        TradingPlatform::BinanceFuturesTestnet => {
            reveal_strlit("Binance Futures (Testnet)");
            assert(text.skip(19)[0] != end[0]);
        },
        TradingPlatform::BinanceMarginLive => {
            reveal_strlit("Binance Margin (Live)");
            assert(text.skip(15) =~= end);
        },
        TradingPlatform::BinanceMarginTestnet => {
            reveal_strlit("Binance Margin (Testnet)");
            assert(text.skip(18)[0] != end[0]);
        },
        TradingPlatform::BinanceCoinFuturesLive => {
            reveal_strlit("Binance COIN-M Futures (Live)");
            assert(text.skip(23) =~= end);
        },
        TradingPlatform::BinanceCoinFuturesTestnet => {
            reveal_strlit("Binance COIN-M Futures (Testnet)");
            assert(text.skip(26)[0] != end[0]);
        },
        TradingPlatform::OandaPractice => {
            reveal_strlit("Oanda (Practice)");
            assert(text.skip(10)[0] != end[0]);
        },
        TradingPlatform::OandaLive => {
            reveal_strlit("Oanda (Live)");
            assert(text.skip(6) =~= end);
        },
        TradingPlatform::SaxoSim => {
            reveal_strlit("Saxo Bank (SIM)");
            assert(text.skip(9)[0] != end[0]);
        },
        TradingPlatform::SaxoLive => {
            reveal_strlit("Saxo Bank (Live)");
            assert(text.skip(10) =~= end);
        },
        TradingPlatform::Tektii => {
            reveal_strlit("Tektii");
            assert(text.skip(0)[0] != end[0]);
        },
        TradingPlatform::Mock => {
            reveal_strlit("Mock (Local Development)");
            assert(text.skip(18)[0] != end[0]);
        },
    }
}

/// Every kind is offered but derivatives and margin trading at Binance.
pub proof fn law_which_kinds_are_offered(kind: TradingPlatformKind)
    ensures
        !kind.is_offered() <==> kind is BinanceFutures || kind is BinanceMargin
            || kind is BinanceCoinFutures,
{
}

/// Every kind that trades at a broker needs its credentials, and only those of its own broker; an
/// engine needs to be found, and a mock needs nothing.
pub proof fn law_variables_of_a_kind(kind: TradingPlatformKind, other: TradingPlatformKind)
    ensures
        kind.spec_required_env_vars().len() == 0 <==> kind is Mock,
        kind is Alpaca ==> kind.spec_required_env_vars() == seq![
            "ALPACA_API_KEY"@,
            "ALPACA_API_SECRET"@,
        ],
        kind is BinanceSpot || kind is BinanceFutures || kind is BinanceMargin
            || kind is BinanceCoinFutures ==> kind.spec_required_env_vars() == seq![
            "BINANCE_API_KEY"@,
            "BINANCE_API_SECRET"@,
        ],
        kind is Oanda ==> kind.spec_required_env_vars() == seq![
            "OANDA_API_KEY"@,
            "OANDA_ACCOUNT_ID"@,
        ],
        kind is Saxo ==> kind.spec_required_env_vars() == seq![
            "SAXO_APP_KEY"@,
            "SAXO_APP_SECRET"@,
            "SAXO_ACCOUNT_KEY"@,
        ],
        kind is Tektii ==> kind.spec_required_env_vars() == seq![
            "TEKTII_ENGINE_URL"@,
            "TEKTII_ENGINE_WS_URL"@,
        ],
{
}

// ---------------------------------------------------------------------------------------
// Health
// ---------------------------------------------------------------------------------------

/// The health of a provider tells its platform and whether it is connected, and lists its stale
/// instruments exactly where there are any.
pub proof fn law_health_tells_what_is_stale(p: ProviderHealth, key: Seq<char>, told: JsonView)
    ensures
        says(p.spec_json(), "platform"@, JsonView::Text(p.platform@)),
        says(p.spec_json(), "connected"@, JsonView::Bool(p.connected)),
        p.stale_instruments@.len() > 0 ==> says(
            p.spec_json(),
            "stale_instruments"@,
            JsonView::Array(text_items(texts(p.stale_instruments@))),
        ),
        p.stale_instruments@.len() == 0 && says(p.spec_json(), key, told) ==> key == "platform"@
            || key == "connected"@,
{
    let members = p.spec_json()->Object_0;
    assert(members[0] == ("platform"@, JsonView::Text(p.platform@)));
    assert(members[1] == ("connected"@, JsonView::Bool(p.connected)));
    if p.stale_instruments@.len() > 0 {
        assert(members[2] == (
            "stale_instruments"@,
            JsonView::Array(text_items(texts(p.stale_instruments@))),
        ));
    }
}

/// Every provider is told of, in order.
pub proof fn law_every_provider_is_told(providers: Seq<ProviderHealth>, i: int)
    requires
        0 <= i < providers.len(),
    ensures
        providers_json(providers).len() == providers.len(),
        providers_json(providers)[i] == providers[i].spec_json(),
{
}

} // verus!
