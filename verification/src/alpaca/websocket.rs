//! The stream of trade updates: its messages, and what is made of each.

use vstd::prelude::*;

use crate::decimal::{
    aligned, below, below_at, dec_parts, decimal_of_text, digits, ten_to, Dec, MAX_PLACES,
};
use crate::fixed::{price_from, price_raw, quantity_from, quantity_raw, Fixed};
use crate::model::OrderSide;
use crate::text::{
    copy_text, json_string, json_text, nat_text, same_text, text_view, trim, trimmed,
};

verus! {

/// What an authorization message says.
#[derive(Clone, Debug)]
pub struct AlpacaAuthData {
    /// "authorized" on success.
    pub status: String,
}

/// The order of a trade update.
#[derive(Clone, Debug)]
pub struct AlpacaWsOrder {
    pub id: String,
    pub client_order_id: Option<String>,
    pub symbol: Option<String>,
    pub side: Option<String>,
    pub filled_qty: Option<String>,
    pub filled_avg_price: Option<String>,
}

/// An event in the life of an order.
#[derive(Clone, Debug)]
pub struct AlpacaTradeUpdate {
    pub event: String,
    /// The id of the fill, on a fill.
    pub execution_id: Option<String>,
    pub order: AlpacaWsOrder,
    /// The price of the fill, on a fill.
    pub price: Option<String>,
    /// The quantity of the fill, on a fill.
    pub qty: Option<String>,
    pub position_qty: Option<String>,
    pub timestamp: Option<String>,
}

/// A message for the execution client.
#[derive(Clone, Debug)]
pub enum AlpacaWsMessage {
    /// An event in the life of an order.
    TradeUpdate(Box<AlpacaTradeUpdate>),
    /// The connection is back; the account is to be read again.
    Reconnected,
}

/// The streams that a message can be of.
#[derive(Clone, Copy, Debug, PartialEq, Eq, Structural)]
pub enum Stream {
    TradeUpdates,
    Authorization,
    Listening,
    /// A stream to be ignored.
    Other,
}

/// The stream of that name.
pub open spec fn stream_named(name: Seq<char>) -> Stream {
    if name == "trade_updates"@ {
        Stream::TradeUpdates
    } else if name == "authorization"@ {
        Stream::Authorization
    } else if name == "listening"@ {
        Stream::Listening
    } else {
        Stream::Other
    }
}

/// The stream of that name.
pub fn stream_of(name: &str) -> (r: Stream)
    ensures
        r == stream_named(name@),
{
    if same_text(name, "trade_updates") {
        Stream::TradeUpdates
    } else if same_text(name, "authorization") {
        Stream::Authorization
    } else if same_text(name, "listening") {
        Stream::Listening
    } else {
        Stream::Other
    }
}

impl AlpacaAuthData {
    /// Whether the stream is authorized.
    pub fn is_authorized(&self) -> (r: bool)
        ensures
            r == (self.status@ == "authorized"@),
    {
        same_text(self.status.as_str(), "authorized")
    }
}

// ----- control messages -----

/// The message that signs in to the stream.
pub fn auth_message(api_key: &str, api_secret: &str) -> (r: String)
    ensures
        r@ == "{\"action\":\"auth\",\"key\":"@ + json_text(api_key@) + ",\"secret\":"@ + json_text(
            api_secret@,
        ) + "}"@,
{
    "{\"action\":\"auth\",\"key\":".to_owned().concat(json_string(api_key).as_str()).concat(
        ",\"secret\":",
    ).concat(json_string(api_secret).as_str()).concat("}")
}

/// The message that asks for trade updates.
pub fn listen_message() -> (r: String)
    ensures
        r@ == "{\"action\":\"listen\",\"data\":{\"streams\":[\"trade_updates\"]}}"@,
{
    "{\"action\":\"listen\",\"data\":{\"streams\":[\"trade_updates\"]}}".to_owned()
}

// ----- fills -----

/// The precision of prices from one dollar on.
pub const EQUITY_PRICE_PRECISION: u8 = 2;

/// The precision of prices below one dollar.
pub const EQUITY_SUBDOLLAR_PRICE_PRECISION: u8 = 4;

/// The precision of a price.
pub open spec fn price_precision(px: Dec) -> u8 {
    if below(px, Dec::of(1, 0)) {
        EQUITY_SUBDOLLAR_PRICE_PRECISION
    } else {
        EQUITY_PRICE_PRECISION
    }
}

/// The report of a fill. Nothing is charged for it.
#[derive(Clone, Debug)]
pub struct FillRecord {
    pub symbol: String,
    pub venue_order_id: String,
    pub trade_id: String,
    pub side: OrderSide,
    pub last_qty: Fixed,
    pub last_px: Fixed,
    pub client_order_id: Option<String>,
    /// When the fill was reported, in nanoseconds of Unix time.
    pub ts: u64,
}

/// The number in an optional text, white space around it left out of account.
pub open spec fn number_in(text: Option<String>) -> Option<Dec> {
    match text {
        Some(s) => decimal_of_text(trimmed(s@)).ok(),
        None => None,
    }
}

/// The side that a fill names, if it is "buy" or "sell".
pub open spec fn fill_side(side: Option<String>) -> Option<OrderSide> {
    match side {
        Some(s) => if s@ == "buy"@ {
            Some(OrderSide::Buy)
        } else if s@ == "sell"@ {
            Some(OrderSide::Sell)
        } else {
            None
        },
        None => None,
    }
}

/// Whether an update can be reported as a fill: it has a symbol, a side, and a price and a
/// quantity that are numbers in range.
pub open spec fn fill_complete(update: AlpacaTradeUpdate) -> bool {
    &&& update.order.symbol is Some
    &&& number_in(update.price) matches Some(px)
    &&& number_in(update.qty) matches Some(qty)
    &&& price_raw(px, price_precision(px)) is Some
    &&& quantity_raw(qty, 0) is Some
    &&& fill_side(update.order.side) is Some
}

/// The id of a fill: the one given, else the order's id, a hyphen and the time.
pub open spec fn fill_id(update: AlpacaTradeUpdate, ts: u64) -> Seq<char> {
    match update.execution_id {
        Some(id) => id@,
        None => update.order.id@ + "-"@ + digits(ts as nat),
    }
}

/// Whether `r` is the report of the fill `update` at time `ts`.
pub open spec fn reports_fill(r: FillRecord, update: AlpacaTradeUpdate, ts: u64) -> bool {
    &&& fill_complete(update)
    &&& Some(r.symbol@) == text_view(update.order.symbol)
    &&& r.venue_order_id@ == update.order.id@
    &&& r.trade_id@ == fill_id(update, ts)
    &&& Some(r.side) == fill_side(update.order.side)
    &&& r.last_px.precision == price_precision(number_in(update.price)->0)
    &&& Some(r.last_px.raw) == price_raw(number_in(update.price)->0, r.last_px.precision)
    &&& r.last_qty.precision == 0
    &&& Some(r.last_qty.raw) == quantity_raw(number_in(update.qty)->0, 0)
    &&& text_view(r.client_order_id) == text_view(update.order.client_order_id)
    &&& r.ts == ts
}

/// The number in an optional text.
fn parse_number(text: &Option<String>) -> (r: Option<Dec>)
    ensures
        r == number_in(*text),
{
    match text {
        Some(s) => Dec::parse(trim(s.as_str()).as_str()),
        None => None,
    }
}

/// The report of a fill at time `ts`; `None` where the update lacks something or a number is out
/// of range.
pub fn build_fill_report(update: &AlpacaTradeUpdate, ts: u64) -> (r: Option<FillRecord>)
    ensures
        r is Some <==> fill_complete(*update),
        r matches Some(report) ==> reports_fill(report, *update, ts),
{
    let symbol = match &update.order.symbol {
        Some(s) => s.clone(),
        None => return None,
    };
    let px = match parse_number(&update.price) {
        Some(d) => d,
        None => return None,
    };
    let qty = match parse_number(&update.qty) {
        Some(d) => d,
        None => return None,
    };
    let one = Dec::new(1, 0).unwrap();
    let precision: u8 = if px.less_than(one) {
        EQUITY_SUBDOLLAR_PRICE_PRECISION
    } else {
        EQUITY_PRICE_PRECISION
    };
    let last_px = match price_from(px, precision) {
        Some(p) => p,
        None => return None,
    };
    let last_qty = match quantity_from(qty, 0) {
        Some(q) => q,
        None => return None,
    };
    let side = match &update.order.side {
        Some(s) => if same_text(s.as_str(), "buy") {
            OrderSide::Buy
        } else if same_text(s.as_str(), "sell") {
            OrderSide::Sell
        } else {
            return None;
        },
        None => return None,
    };
    let trade_id = match &update.execution_id {
        Some(id) => id.clone(),
        None => update.order.id.clone().concat("-").concat(nat_text(ts).as_str()),
    };
    Some(
        FillRecord {
            symbol,
            venue_order_id: update.order.id.clone(),
            trade_id,
            side,
            last_qty,
            last_px,
            client_order_id: copy_text(&update.order.client_order_id),
            ts,
        },
    )
}

/// Whether an event is a fill.
pub open spec fn is_fill(event: Seq<char>) -> bool {
    event == "fill"@ || event == "partial_fill"@
}

/// What an update is reported as: a fill that is complete; nothing else is reported.
pub fn handle_trade_update(update: &AlpacaTradeUpdate, ts: u64) -> (r: Option<FillRecord>)
    ensures
        r is Some <==> is_fill(update.event@) && fill_complete(*update),
        r matches Some(report) ==> reports_fill(report, *update, ts),
{
    if same_text(update.event.as_str(), "fill") || same_text(
        update.event.as_str(),
        "partial_fill",
    ) {
        build_fill_report(update, ts)
    } else {
        None
    }
}

// ----- laws -----

/// The report of a fill says what the update says, each in its own field: the quantity and the
/// price are those of the fill, not of the order; the price has two decimals from one dollar on and
/// four below; a purchase is told by "buy" and a sale by "sell"; and the id is the fill's own, or
/// the order's with the time where the fill has none.
pub proof fn fill_reports_are_their_fields(
    r: FillRecord,
    update: AlpacaTradeUpdate,
    ts: u64,
    px: Dec,
    qty: Dec,
)
    requires
        reports_fill(r, update, ts),
        px.valid(),
        update.price matches Some(text) && decimal_of_text(trimmed(text@)) == Ok::<Dec, Seq<char>>(
            px,
        ),
        update.qty matches Some(text) && decimal_of_text(trimmed(text@)) == Ok::<Dec, Seq<char>>(
            qty,
        ),
    ensures
        update.order.symbol matches Some(symbol) && r.symbol@ == symbol@,
        r.venue_order_id@ == update.order.id@,
        update.execution_id matches Some(id) ==> r.trade_id@ == id@,
        update.execution_id is None ==> r.trade_id@ == update.order.id@ + seq!['-'] + digits(
            ts as nat,
        ),
        update.order.side matches Some(side) && (side@ == "buy"@ && r.side == OrderSide::Buy
            || side@ == "sell"@ && r.side == OrderSide::Sell),
        r.client_order_id is Some <==> update.order.client_order_id is Some,
        update.order.client_order_id matches Some(id) ==> r.client_order_id->0@ == id@,
        quantity_raw(qty, 0) == Some(r.last_qty.raw),
        r.last_qty.precision == 0,
        aligned(px, MAX_PLACES as nat) >= ten_to(28) ==> r.last_px.precision == 2 && price_raw(px, 2)
            == Some(r.last_px.raw),
        aligned(px, MAX_PLACES as nat) < ten_to(28) ==> r.last_px.precision == 4 && price_raw(px, 4)
            == Some(r.last_px.raw),
        r.ts == ts,
{
    broadcast use dec_parts;

    below_at(px, Dec::of(1, 0), MAX_PLACES as nat);
    assert(aligned(Dec::of(1, 0), MAX_PLACES as nat) == ten_to(28));
    reveal_strlit("-");
    assert("-"@ =~= seq!['-']);
}

/// A fill is reported where nothing is missing: a symbol, a side that is "buy" or "sell", and a
/// price and a quantity that are numbers in range.
pub proof fn complete_fills_are_reported(update: AlpacaTradeUpdate, px: Dec, qty: Dec)
    requires
        px.valid(),
        update.order.symbol is Some,
        update.order.side matches Some(side) && (side@ == "buy"@ || side@ == "sell"@),
        update.price matches Some(text) && decimal_of_text(trimmed(text@)) == Ok::<Dec, Seq<char>>(
            px,
        ),
        update.qty matches Some(text) && decimal_of_text(trimmed(text@)) == Ok::<Dec, Seq<char>>(
            qty,
        ),
        price_raw(px, 2) is Some,
        price_raw(px, 4) is Some,
        quantity_raw(qty, 0) is Some,
    ensures
        fill_complete(update),
        is_fill("fill"@),
        is_fill("partial_fill"@),
{
}

/// A side that is neither "buy" nor "sell", or a number that is missing or none, leaves a fill out.
pub proof fn incomplete_fills_are_left_out(update: AlpacaTradeUpdate)
    requires
        update.order.symbol is None || update.order.side is None || update.price is None
            || update.qty is None || (update.order.side->0@ != "buy"@ && update.order.side->0@
            != "sell"@) || decimal_of_text(trimmed(update.price->0@)) is Err || decimal_of_text(
            trimmed(update.qty->0@),
        ) is Err,
    ensures
        !fill_complete(update),
{
}

/// The streams are told apart by their names, and the two events that are fills by theirs; every
/// other stream is ignored and every other event is no fill.
pub proof fn streams_and_fills_are_told_by_name(name: Seq<char>)
    ensures
        stream_named(name) == Stream::TradeUpdates <==> name == "trade_updates"@,
        stream_named(name) == Stream::Authorization <==> name == "authorization"@,
        stream_named(name) == Stream::Listening <==> name == "listening"@,
        is_fill(name) <==> name == "fill"@ || name == "partial_fill"@,
{
    reveal_strlit("trade_updates");
    reveal_strlit("authorization");
    reveal_strlit("listening");
    assert("trade_updates"@.len() == 13 && "authorization"@.len() == 13 && "listening"@.len() == 9);
    assert("trade_updates"@[0] == 't' && "authorization"@[0] == 'a');
}

} // verus!
