//! What the execution client does with each command: which order is denied, rejected, held or
//! sent, and what is sent.

use chrono::DateTime;
use vstd::prelude::*;

use crate::alpaca::config::ALPACA;
use crate::alpaca::gatekeeper::{
    goes_by_exact_numbers, try_check, verdict, AccountInfo, Decision, GatekeeperLimits, OrderInfo, Verdict,
};
use crate::alpaca::http::error::Error;
use crate::alpaca::http::models::{
    AlpacaAccount, AlpacaOrder, CreateOrderRequest, ReplaceOrderRequest, RequestView, StopLoss,
    TakeProfit,
};
use crate::alpaca::http::parse::{
    order_side_to_alpaca, order_type_to_alpaca, side_error, side_wire, tif_error, tif_wire,
    time_in_force_to_alpaca, type_error, type_wire,
};
use crate::alpaca::session::{MarketCalendar, Session};
use crate::alpaca::validator::{
    is_released_premarket, judgement, released_premarket, structure_problem, Judgement, OrderShape,
    OrderValidator, Validity, QUEUE_FOR_OPEN_TAG,
};
use crate::alpaca::wash::{
    try_check_wash_trade, values_decide, wash, OpenOrderView, PendingOrder, Wash,
};
use crate::decimal::{
    aligned, aligned_absolute, cut_to, cutting_goes_to_the_nearest, dec_parts, decimal_product,
    decimal_quotient, decimal_sum, decimal_text, divides_exactly, hundredths_are_exact,
    is_quotient, magnitude, normalized, normalizing_keeps_the_value, product_in_range,
    product_value, sum_in_range, sum_value, ten_to, Dec, MAX_PLACES,
};
use crate::model::{
    ContingencyType, Money, OrderSide, OrderType, TimeInForce, TrailingOffsetType,
};
use crate::text::{bool_shown, bool_text, same_text, text_view, views};

verus! {

/// What a command needs to know of an order.
#[derive(Clone, Debug)]
pub struct OrderView {
    pub client_order_id: String,
    pub symbol: String,
    /// The venue of the order's instrument.
    pub venue: String,
    pub side: OrderSide,
    pub order_type: OrderType,
    pub time_in_force: TimeInForce,
    pub quantity: Dec,
    pub price: Option<Dec>,
    pub trigger_price: Option<Dec>,
    pub contingency: Option<ContingencyType>,
    pub is_emulated: bool,
    pub is_closed: bool,
    pub tags: Vec<String>,
    pub trailing_offset: Option<Dec>,
    pub trailing_offset_type: Option<TrailingOffsetType>,
    /// When the order expires, where it is good till a date, in nanoseconds of Unix time.
    pub expire_time: Option<u64>,
}

/// An open position at the broker.
#[derive(Clone, Debug)]
pub struct PositionView {
    pub symbol: String,
    pub signed_qty: Dec,
    pub avg_px: Dec,
}

/// An open order at the broker on the order's instrument.
#[derive(Clone, Debug)]
pub struct OpenOrder {
    pub client_order_id: String,
    pub side: OrderSide,
    pub leaves_qty: Dec,
    pub price: Option<Dec>,
}

/// The latest quote of the order's symbol.
#[derive(Clone, Copy, Debug)]
pub struct Quote {
    pub bid: Dec,
    pub ask: Dec,
    /// The price half way between bid and ask, at the bid's precision.
    pub mid: Dec,
}

/// What is known of the account and the market when a command arrives.
#[derive(Clone, Debug)]
pub struct Snapshot {
    /// The account's equity, once it is known.
    pub equity: Option<Money>,
    /// All open positions at the broker.
    pub positions: Vec<PositionView>,
    /// The open orders at the broker on the order's instrument.
    pub open_orders: Vec<OpenOrder>,
    /// The latest quote of the order's symbol.
    pub quote: Option<Quote>,
    /// The price of the latest trade of the order's symbol.
    pub last_trade: Option<Dec>,
}

impl OrderView {
    /// Whether the expiry of an order that is good till a date can be written as a date.
    pub open spec fn valid(self) -> bool {
        self.time_in_force == TimeInForce::Gtd ==> (self.expire_time matches Some(t) ==> t
            <= i64::MAX)
    }
}

// ----- the account -----

/// Gross exposure over the first `n` positions, at cost.
pub open spec fn gross_of(positions: Seq<PositionView>, n: int) -> Option<Dec>
    decreases n,
{
    if n <= 0 {
        Some(Dec::nought())
    } else {
        match (
            gross_of(positions, n - 1),
            decimal_product(positions[n - 1].signed_qty, positions[n - 1].avg_px),
        ) {
            (Some(sum), Some(cost)) => decimal_sum(sum, cost.absolute()),
            _ => None,
        }
    }
}

/// The same, as far as every product and sum on the way is known to be exact.
pub open spec fn gross_exactly(positions: Seq<PositionView>, n: int) -> Option<Dec>
    decreases n,
{
    if n <= 0 {
        Some(Dec::nought())
    } else {
        match (
            gross_exactly(positions, n - 1),
            product_in_range(positions[n - 1].signed_qty, positions[n - 1].avg_px),
        ) {
            (Some(sum), Some(cost)) => sum_in_range(sum, cost.absolute()),
            _ => None,
        }
    }
}

/// Whether gross exposure is the exact number, where every step is known to be exact.
pub open spec fn gross_is_exact(positions: Seq<PositionView>) -> bool {
    gross_exactly(positions, positions.len() as int) is Some ==> gross_of(
        positions,
        positions.len() as int,
    ) == gross_exactly(positions, positions.len() as int)
}

/// The signed quantity that the first `n` positions hold of `symbol`.
pub open spec fn net_of(positions: Seq<PositionView>, symbol: Seq<char>, n: int) -> Option<Dec>
    decreases n,
{
    if n <= 0 {
        Some(Dec::nought())
    } else if positions[n - 1].symbol@ != symbol {
        net_of(positions, symbol, n - 1)
    } else {
        match net_of(positions, symbol, n - 1) {
            Some(sum) => decimal_sum(sum, positions[n - 1].signed_qty),
            None => None,
        }
    }
}

/// The same, as far as every sum on the way is known to be exact.
pub open spec fn net_exactly(positions: Seq<PositionView>, symbol: Seq<char>, n: int) -> Option<Dec>
    decreases n,
{
    if n <= 0 {
        Some(Dec::nought())
    } else if positions[n - 1].symbol@ != symbol {
        net_exactly(positions, symbol, n - 1)
    } else {
        match net_exactly(positions, symbol, n - 1) {
            Some(sum) => sum_in_range(sum, positions[n - 1].signed_qty),
            None => None,
        }
    }
}

/// Whether the quantity held is the exact number, where every sum is known to be exact.
pub open spec fn net_is_exact(positions: Seq<PositionView>, symbol: Seq<char>) -> bool {
    net_exactly(positions, symbol, positions.len() as int) is Some ==> net_of(
        positions,
        symbol,
        positions.len() as int,
    ) == net_exactly(positions, symbol, positions.len() as int)
}

fn net_quantity(positions: &Vec<PositionView>, symbol: &str) -> (r: Option<Dec>)
    ensures
        r == net_of(positions@, symbol@, positions@.len() as int),
        net_is_exact(positions@, symbol@),
{
    let mut sum: Option<Dec> = Some(Dec::zero());
    let mut i: usize = 0;
    while i < positions.len()
        invariant
            i <= positions@.len(),
            sum == net_of(positions@, symbol@, i as int),
            net_exactly(positions@, symbol@, i as int) is Some ==> sum == net_exactly(
                positions@,
                symbol@,
                i as int,
            ),
        decreases positions@.len() - i,
    {
        if same_text(positions[i].symbol.as_str(), symbol) {
            sum = match sum {
                Some(s) => s.checked_add(positions[i].signed_qty),
                None => None,
            };
        }
        i = i + 1;
    }
    sum
}

/// The cost of what the first `n` positions hold of `symbol`; of a short position it is negative.
pub open spec fn cost_of(positions: Seq<PositionView>, symbol: Seq<char>, n: int) -> Option<Dec>
    decreases n,
{
    if n <= 0 {
        Some(Dec::nought())
    } else if positions[n - 1].symbol@ != symbol {
        cost_of(positions, symbol, n - 1)
    } else {
        match (
            cost_of(positions, symbol, n - 1),
            decimal_product(positions[n - 1].signed_qty, positions[n - 1].avg_px),
        ) {
            (Some(sum), Some(cost)) => decimal_sum(sum, cost),
            _ => None,
        }
    }
}

/// The same, as far as every product and sum on the way is known to be exact.
pub open spec fn cost_exactly(positions: Seq<PositionView>, symbol: Seq<char>, n: int) -> Option<
    Dec,
>
    decreases n,
{
    if n <= 0 {
        Some(Dec::nought())
    } else if positions[n - 1].symbol@ != symbol {
        cost_exactly(positions, symbol, n - 1)
    } else {
        match (
            cost_exactly(positions, symbol, n - 1),
            product_in_range(positions[n - 1].signed_qty, positions[n - 1].avg_px),
        ) {
            (Some(sum), Some(cost)) => sum_in_range(sum, cost),
            _ => None,
        }
    }
}

/// How many of the first `n` positions are in `symbol`.
pub open spec fn count_of(positions: Seq<PositionView>, symbol: Seq<char>, n: int) -> nat
    decreases n,
{
    if n <= 0 {
        0
    } else {
        count_of(positions, symbol, n - 1) + if positions[n - 1].symbol@ == symbol {
            1nat
        } else {
            0
        }
    }
}

/// The last of the first `n` positions that is in `symbol`.
pub open spec fn position_in(positions: Seq<PositionView>, symbol: Seq<char>, n: int) -> Option<
    PositionView,
>
    decreases n,
{
    if n <= 0 {
        None
    } else if positions[n - 1].symbol@ == symbol {
        Some(positions[n - 1])
    } else {
        position_in(positions, symbol, n - 1)
    }
}

/// The average price at which what is held of `symbol` was entered: that of its position where
/// there is one, else the cost of all of them by their quantity. Zero where nothing is held.
pub open spec fn average_of(positions: Seq<PositionView>, symbol: Seq<char>) -> Option<Dec> {
    let n = positions.len() as int;
    if count_of(positions, symbol, n) == 1 {
        Some(position_in(positions, symbol, n)->0.avg_px)
    } else {
        match (net_of(positions, symbol, n), cost_of(positions, symbol, n)) {
            (Some(net), Some(cost)) => if net.units() == 0 {
                Some(Dec::nought())
            } else {
                decimal_quotient(cost, net)
            },
            _ => None,
        }
    }
}

/// Whether the average price is the exact number, where every step is known to be exact.
pub open spec fn average_is_exact(positions: Seq<PositionView>, symbol: Seq<char>) -> bool {
    let n = positions.len() as int;
    count_of(positions, symbol, n) == 1 || {
        &&& cost_exactly(positions, symbol, n) is Some ==> cost_of(positions, symbol, n)
            == cost_exactly(positions, symbol, n)
        &&& match (net_of(positions, symbol, n), cost_of(positions, symbol, n)) {
            (Some(net), Some(cost)) => net.units() != 0 ==> divides_exactly(
                cost,
                net,
                decimal_quotient(cost, net),
            ),
            _ => true,
        }
    }
}

/// The state of the account that the gatekeeper needs; `None` where a number does not fit.
pub open spec fn account_of(snapshot: Snapshot, symbol: Seq<char>) -> Option<AccountInfo> {
    let n = snapshot.positions@.len() as int;
    match (
        gross_of(snapshot.positions@, n),
        net_of(snapshot.positions@, symbol, n),
        average_of(snapshot.positions@, symbol),
    ) {
        (Some(gross), Some(net), Some(average)) => Some(
            AccountInfo {
                equity: snapshot.equity,
                symbol_net_qty: net,
                symbol_avg_px: average,
                total_gross_exposure: gross,
            },
        ),
        _ => None,
    }
}

/// Whether the state of the account is exact, where every step is known to be.
pub open spec fn account_is_exact(snapshot: Snapshot, symbol: Seq<char>) -> bool {
    let n = snapshot.positions@.len() as int;
    &&& gross_is_exact(snapshot.positions@)
    &&& gross_of(snapshot.positions@, n) is Some ==> net_is_exact(snapshot.positions@, symbol)
    &&& gross_of(snapshot.positions@, n) is Some && net_of(snapshot.positions@, symbol, n) is Some
        ==> average_is_exact(snapshot.positions@, symbol)
}

/// A copy of an optional amount.
fn copy_money(m: &Option<Money>) -> (r: Option<Money>)
    ensures
        r == *m,
{
    match m {
        Some(m) => Some(Money { amount: m.amount, currency: m.currency.clone() }),
        None => None,
    }
}

fn gross_exposure(positions: &Vec<PositionView>) -> (r: Option<Dec>)
    ensures
        r == gross_of(positions@, positions@.len() as int),
        gross_is_exact(positions@),
{
    let mut sum: Option<Dec> = Some(Dec::zero());
    let mut i: usize = 0;
    while i < positions.len()
        invariant
            i <= positions@.len(),
            sum == gross_of(positions@, i as int),
            gross_exactly(positions@, i as int) is Some ==> sum == gross_exactly(
                positions@,
                i as int,
            ),
        decreases positions@.len() - i,
    {
        let p = &positions[i];
        sum = match (sum, p.signed_qty.checked_mul(p.avg_px)) {
            (Some(s), Some(cost)) => s.checked_add(cost.abs()),
            _ => None,
        };
        i = i + 1;
    }
    sum
}

fn average_price(positions: &Vec<PositionView>, symbol: &str, net: Dec) -> (r: Option<Dec>)
    requires
        net_of(positions@, symbol@, positions@.len() as int) == Some(net),
    ensures
        r == average_of(positions@, symbol@),
        average_is_exact(positions@, symbol@),
{
    let mut count: usize = 0;
    let mut last = Dec::zero();
    let mut cost: Option<Dec> = Some(Dec::zero());
    let mut i: usize = 0;
    while i < positions.len()
        invariant
            i <= positions@.len(),
            count <= i,
            count == count_of(positions@, symbol@, i as int),
            count > 0 ==> (position_in(positions@, symbol@, i as int) matches Some(p) && p.avg_px
                == last),
            cost == cost_of(positions@, symbol@, i as int),
            cost_exactly(positions@, symbol@, i as int) is Some ==> cost == cost_exactly(
                positions@,
                symbol@,
                i as int,
            ),
        decreases positions@.len() - i,
    {
        let p = &positions[i];
        if same_text(p.symbol.as_str(), symbol) {
            count = count + 1;
            last = p.avg_px;
            cost = match (cost, p.signed_qty.checked_mul(p.avg_px)) {
                (Some(sum), Some(c)) => sum.checked_add(c),
                _ => None,
            };
        }
        i = i + 1;
    }
    if count == 1 {
        return Some(last);
    }
    match cost {
        None => None,
        Some(cost) => if net.unit_count() == 0 {
            Some(Dec::zero())
        } else {
            cost.checked_div(net)
        },
    }
}

/// The state of the account that the gatekeeper needs for an order in `symbol`: what is held of it
/// and at what average price, and gross exposure, added up over the open positions at cost. `None`
/// where a number does not fit.
pub fn account_info_for(snapshot: &Snapshot, symbol: &str) -> (r: Option<AccountInfo>)
    ensures
        r == account_of(*snapshot, symbol@),
        account_is_exact(*snapshot, symbol@),
{
    let gross = match gross_exposure(&snapshot.positions) {
        Some(gross) => gross,
        None => return None,
    };
    let net = match net_quantity(&snapshot.positions, symbol) {
        Some(net) => net,
        None => return None,
    };
    let average = match average_price(&snapshot.positions, symbol, net) {
        Some(average) => average,
        None => return None,
    };
    Some(
        AccountInfo {
            equity: copy_money(&snapshot.equity),
            symbol_net_qty: net,
            symbol_avg_px: average,
            total_gross_exposure: gross,
        },
    )
}

/// The price that values an order without one of its own: the middle of the latest quote where
/// both its prices are positive, else the price of the latest trade.
pub open spec fn reference_of(snapshot: Snapshot) -> Option<Dec> {
    match snapshot.quote {
        Some(q) if q.bid.units() > 0 && q.ask.units() > 0 => Some(q.mid),
        _ => snapshot.last_trade,
    }
}

/// The price that values an order without one of its own.
pub fn reference_price_for(snapshot: &Snapshot) -> (r: Option<Dec>)
    ensures
        r == reference_of(*snapshot),
{
    match &snapshot.quote {
        Some(q) => if q.bid.is_positive() && q.ask.is_positive() {
            Some(q.mid)
        } else {
            snapshot.last_trade
        },
        None => snapshot.last_trade,
    }
}

/// The number without trailing zeros, if there is one.
pub open spec fn shortened(d: Option<Dec>) -> Option<Dec> {
    match d {
        Some(d) => Some(normalized(d)),
        None => None,
    }
}

/// The number without trailing zeros, if there is one.
fn shorten(d: Option<Dec>) -> (r: Option<Dec>)
    ensures
        r == shortened(d),
{
    match d {
        Some(d) => Some(d.normalize()),
        None => None,
    }
}

/// An open order as the wash-trade guard sees it: its numbers without trailing zeros.
pub open spec fn view_of(o: OpenOrder) -> OpenOrderView {
    OpenOrderView {
        is_buy: o.side == OrderSide::Buy,
        leaves_qty: normalized(o.leaves_qty),
        limit_price: shortened(o.price),
    }
}

/// The first `n` open orders, but for the one with the given id.
pub open spec fn others_of(orders: Seq<OpenOrder>, id: Seq<char>, n: int) -> Seq<OpenOrderView>
    decreases n,
{
    if n <= 0 {
        Seq::empty()
    } else if orders[n - 1].client_order_id@ == id {
        others_of(orders, id, n - 1)
    } else {
        others_of(orders, id, n - 1).push(view_of(orders[n - 1]))
    }
}

fn other_orders(orders: &Vec<OpenOrder>, id: &str) -> (r: Vec<OpenOrderView>)
    ensures
        r@ == others_of(orders@, id@, orders@.len() as int),
{
    let mut out: Vec<OpenOrderView> = Vec::new();
    let mut i: usize = 0;
    while i < orders.len()
        invariant
            i <= orders@.len(),
            out@ == others_of(orders@, id@, i as int),
        decreases orders@.len() - i,
    {
        let o = &orders[i];
        if !same_text(o.client_order_id.as_str(), id) {
            out.push(
                OpenOrderView {
                    is_buy: o.side == OrderSide::Buy,
                    leaves_qty: o.leaves_qty.normalize(),
                    limit_price: shorten(o.price),
                },
            );
        }
        i = i + 1;
    }
    out
}

/// The order as the wash-trade guard sees it: its numbers without trailing zeros.
pub open spec fn pending_of(order: OrderView) -> PendingOrder {
    PendingOrder {
        is_buy: order.side == OrderSide::Buy,
        quantity: normalized(order.quantity),
        limit_price: shortened(order.price),
    }
}

/// The signed quantity that is held at the broker of an order's instrument; of an instrument of
/// another venue there is none.
pub open spec fn held_of(order: OrderView, snapshot: Snapshot) -> Option<Dec> {
    if order.venue@ == ALPACA@ {
        net_of(snapshot.positions@, order.symbol@, snapshot.positions@.len() as int)
    } else {
        Some(Dec::nought())
    }
}

/// What the wash-trade guard says of an order: the position in its instrument against the other
/// open orders.
pub open spec fn guard(order: OrderView, snapshot: Snapshot) -> Wash {
    match held_of(order, snapshot) {
        None => Wash::Unfit,
        Some(net) => wash(
            pending_of(order),
            net,
            others_of(
                snapshot.open_orders@,
                order.client_order_id@,
                snapshot.open_orders@.len() as int,
            ),
        ),
    }
}

/// Whether what the wash-trade guard says goes by the exact numbers, where every sum is known to be
/// exact.
pub open spec fn guard_is_exact(order: OrderView, snapshot: Snapshot) -> bool {
    &&& order.venue@ == ALPACA@ ==> net_is_exact(snapshot.positions@, order.symbol@)
    &&& held_of(order, snapshot) matches Some(net) ==> values_decide(
        pending_of(order),
        net,
        others_of(
            snapshot.open_orders@,
            order.client_order_id@,
            snapshot.open_orders@.len() as int,
        ),
    )
}

/// Says why the broker would refuse `order` as a wash trade or a short sale, if it would; the
/// outer `None` says that a number does not fit.
pub fn wash_reason_for(order: &OrderView, snapshot: &Snapshot) -> (r: Option<Option<String>>)
    ensures
        match r {
            None => guard(*order, *snapshot) is Unfit,
            Some(None) => guard(*order, *snapshot) is Clear,
            Some(Some(s)) => guard(*order, *snapshot) == Wash::Refused(s@),
        },
        guard_is_exact(*order, *snapshot),
{
    let held = if same_text(order.venue.as_str(), ALPACA) {
        net_quantity(&snapshot.positions, order.symbol.as_str())
    } else {
        Some(Dec::zero())
    };
    let net = match held {
        Some(n) => n,
        None => return None,
    };
    let open = other_orders(&snapshot.open_orders, order.client_order_id.as_str());
    let pending = PendingOrder {
        is_buy: order.side == OrderSide::Buy,
        quantity: order.quantity.normalize(),
        limit_price: shorten(order.price),
    };
    try_check_wash_trade(&pending, net, open.as_slice())
}

// ----- requests -----

/// The most decimal places that a quantity is sent with.
pub const QTY_PLACES: u32 = 9;

/// The quantity as the broker takes it: whole shares without a point, else at most nine decimal
/// places without trailing zeros.
pub open spec fn qty_shown(qty: Dec) -> Seq<char> {
    decimal_text(normalized(cut_to(qty, QTY_PLACES as nat)))
}

/// The quantity as the broker takes it.
pub fn format_qty(qty: Dec) -> (r: String)
    ensures
        r@ == qty_shown(qty),
{
    qty.round_to(QTY_PLACES).normalize().text()
}

/// A trailing offset as the broker takes it, as a percentage or as a price. A hundred basis points
/// are one percent.
pub open spec fn trailing(order: OrderView) -> (Option<Seq<char>>, Option<Seq<char>>) {
    match (order.trailing_offset, order.trailing_offset_type) {
        (Some(offset), Some(TrailingOffsetType::BasisPoints)) => (
            Some(decimal_text(decimal_quotient(offset, Dec::of(100, 0))->0)),
            None,
        ),
        (Some(offset), Some(TrailingOffsetType::Price)) => (None, Some(decimal_text(offset))),
        (Some(offset), Some(TrailingOffsetType::Ticks)) => (None, Some(decimal_text(offset))),
        _ => (None, None),
    }
}

/// Whether a trailing offset in basis points is sent as exactly its hundredth, while there is room
/// for two more decimal places.
pub open spec fn trails_exactly(order: OrderView) -> bool {
    (order.trailing_offset matches Some(offset) && order.trailing_offset_type == Some(
        TrailingOffsetType::BasisPoints,
    ) && offset.places() + 2 <= MAX_PLACES) ==> (decimal_quotient(
        order.trailing_offset->0,
        Dec::of(100, 0),
    ) matches Some(percent) && is_quotient(order.trailing_offset->0, Dec::of(100, 0), percent))
}

/// A trailing offset as the broker takes it: the percentage, and the price.
pub fn trailing_params(order: &OrderView) -> (r: (Option<String>, Option<String>))
    ensures
        text_view(r.0) == trailing(*order).0,
        text_view(r.1) == trailing(*order).1,
        trails_exactly(*order),
{
    let offset = match order.trailing_offset {
        Some(offset) => offset,
        None => return (None, None),
    };
    match order.trailing_offset_type {
        Some(TrailingOffsetType::BasisPoints) => {
            let percent = offset.checked_div(Dec::hundred()).unwrap();
            proof {
                use_type_invariant(&offset);
                if offset.places() + 2 <= MAX_PLACES {
                    hundredths_are_exact(offset);
                }
            }
            (Some(percent.text()), None)
        },
        Some(TrailingOffsetType::Price) | Some(TrailingOffsetType::Ticks) => (
            None,
            Some(offset.text()),
        ),
        _ => (None, None),
    }
}

/// The date and time, as `DateTime::to_rfc3339` writes it, of an instant in nanoseconds of Unix
/// time.
pub uninterp spec fn rfc3339(ts: u64) -> Seq<char>;

/// `DateTime::from_timestamp_nanos`, then `DateTime::to_rfc3339`: the instant as date and time.
#[verifier::external_body]
fn outside_rfc3339(ts: u64) -> (r: String)
    requires
        ts <= i64::MAX,
    ensures
        r@ == rfc3339(ts),
{
    DateTime::from_timestamp_nanos(ts as i64).to_rfc3339()
}

/// When an order that is good till a date expires, as the broker takes it; other orders have no
/// expiry.
pub open spec fn expiry(order: OrderView) -> Option<Seq<char>> {
    match (order.time_in_force, order.expire_time) {
        (TimeInForce::Gtd, Some(t)) => Some(rfc3339(t)),
        _ => None,
    }
}

/// When an order that is good till a date expires, as the broker takes it.
pub fn expires_at_rfc3339(order: &OrderView) -> (r: Option<String>)
    requires
        order.valid(),
    ensures
        text_view(r) == expiry(*order),
{
    match (order.time_in_force, order.expire_time) {
        (TimeInForce::Gtd, Some(t)) => Some(outside_rfc3339(t)),
        _ => None,
    }
}

/// The text of an optional price.
pub open spec fn price_shown(px: Option<Dec>) -> Option<Seq<char>> {
    match px {
        Some(px) => Some(decimal_text(px)),
        None => None,
    }
}

/// The text of an optional price.
fn price_text(px: Option<Dec>) -> (r: Option<String>)
    ensures
        text_view(r) == price_shown(px),
{
    match px {
        Some(px) => Some(px.text()),
        None => None,
    }
}

/// Whether an order trails the market. The broker derives the stop price of such an order and
/// rejects one that is given.
pub open spec fn is_trailing(order_type: OrderType) -> bool {
    order_type == OrderType::TrailingStopMarket || order_type == OrderType::TrailingStopLimit
}

/// Whether an order has a side, a type and a time in force that the broker takes.
pub open spec fn sendable(order: OrderView) -> bool {
    &&& side_wire(order.side) is Some
    &&& type_wire(order.order_type) is Some
    &&& tif_wire(order.time_in_force) is Some
}

/// Why an order cannot be written on the wire: its side first, then its type, then its time in
/// force.
pub open spec fn wire_error(order: OrderView) -> Seq<char> {
    if side_wire(order.side) is None {
        "parse error: "@ + side_error()
    } else if type_wire(order.order_type) is None {
        "parse error: "@ + type_error(order.order_type)
    } else {
        "parse error: "@ + tif_error(order.time_in_force)
    }
}

/// The request for a simple order.
pub open spec fn request_of(order: OrderView, extended_hours: bool) -> RequestView {
    RequestView {
        symbol: order.symbol@,
        qty: qty_shown(order.quantity),
        side: side_wire(order.side)->0,
        order_type: type_wire(order.order_type)->0,
        time_in_force: tif_wire(order.time_in_force)->0,
        limit_price: price_shown(order.price),
        stop_price: if is_trailing(order.order_type) {
            None
        } else {
            price_shown(order.trigger_price)
        },
        order_class: None,
        trail_percent: trailing(order).0,
        trail_price: trailing(order).1,
        expires_at: expiry(order),
        extended_hours: if extended_hours {
            Some(true)
        } else {
            None
        },
        client_order_id: Some(order.client_order_id@),
        take_profit: None,
        stop_loss: None,
    }
}

/// The request for the entry of a bracket with these prices for its legs. It is never sent for
/// extended hours.
pub open spec fn bracket_of(order: OrderView, tp: Seq<char>, sl: Seq<char>) -> RequestView {
    RequestView {
        symbol: order.symbol@,
        qty: qty_shown(order.quantity),
        side: side_wire(order.side)->0,
        order_type: type_wire(order.order_type)->0,
        time_in_force: tif_wire(order.time_in_force)->0,
        limit_price: price_shown(order.price),
        stop_price: None,
        order_class: Some("bracket"@),
        trail_percent: None,
        trail_price: None,
        expires_at: None,
        extended_hours: None,
        client_order_id: Some(order.client_order_id@),
        take_profit: Some(tp),
        stop_loss: Some((sl, None)),
    }
}

/// The wire texts of an order.
struct WireTexts {
    side: String,
    order_type: String,
    time_in_force: String,
}

/// The wire texts of an order, or the error of the first that it has none for.
fn wire_texts(order: &OrderView) -> (r: Result<WireTexts, Error>)
    ensures
        r is Ok <==> sendable(*order),
        r matches Ok(w) ==> Some(w.side@) == side_wire(order.side) && Some(w.order_type@)
            == type_wire(order.order_type) && Some(w.time_in_force@) == tif_wire(
            order.time_in_force,
        ),
        r matches Err(e) ==> e.shown() == wire_error(*order),
{
    let side = match order_side_to_alpaca(order.side) {
        Ok(s) => s.to_owned(),
        Err(e) => return Err(e),
    };
    let order_type = match order_type_to_alpaca(order.order_type) {
        Ok(t) => t.to_owned(),
        Err(e) => return Err(e),
    };
    let time_in_force = match time_in_force_to_alpaca(order.time_in_force) {
        Ok(t) => t.to_owned(),
        Err(e) => return Err(e),
    };
    Ok(WireTexts { side, order_type, time_in_force })
}

/// The request for a simple order, or why it cannot be written on the wire.
pub fn build_request(order: &OrderView, extended_hours: bool) -> (r: Result<
    CreateOrderRequest,
    Error,
>)
    ensures
        r is Ok <==> sendable(*order),
        r matches Ok(request) ==> request@ == request_of(*order, extended_hours),
        r is Ok ==> trails_exactly(*order),
        r matches Err(e) ==> e.shown() == wire_error(*order),
{
    let wire = match wire_texts(order) {
        Ok(w) => w,
        Err(e) => return Err(e),
    };
    let (trail_percent, trail_price) = trailing_params(order);
    let stop_price = match order.order_type {
        OrderType::TrailingStopMarket | OrderType::TrailingStopLimit => None,
        _ => price_text(order.trigger_price),
    };
    Ok(
        CreateOrderRequest {
            symbol: order.symbol.clone(),
            qty: format_qty(order.quantity),
            side: wire.side,
            order_type: wire.order_type,
            time_in_force: wire.time_in_force,
            limit_price: price_text(order.price),
            stop_price,
            order_class: None,
            trail_percent,
            trail_price,
            expires_at: expires_at_rfc3339(order),
            extended_hours: if extended_hours {
                Some(true)
            } else {
                None
            },
            client_order_id: Some(order.client_order_id.clone()),
            take_profit: None,
            stop_loss: None,
        },
    )
}

/// The request for the entry of a bracket, or why it cannot be written on the wire.
pub fn build_bracket_request(entry: &OrderView, tp_px: &str, sl_px: &str) -> (r: Result<
    CreateOrderRequest,
    Error,
>)
    ensures
        r is Ok <==> sendable(*entry),
        r matches Ok(request) ==> request@ == bracket_of(*entry, tp_px@, sl_px@),
        r matches Err(e) ==> e.shown() == wire_error(*entry),
{
    let wire = match wire_texts(entry) {
        Ok(w) => w,
        Err(e) => return Err(e),
    };
    Ok(
        CreateOrderRequest {
            symbol: entry.symbol.clone(),
            qty: format_qty(entry.quantity),
            side: wire.side,
            order_type: wire.order_type,
            time_in_force: wire.time_in_force,
            limit_price: price_text(entry.price),
            stop_price: None,
            order_class: Some("bracket".to_owned()),
            trail_percent: None,
            trail_price: None,
            expires_at: None,
            extended_hours: None,
            client_order_id: Some(entry.client_order_id.clone()),
            take_profit: Some(TakeProfit { limit_price: tp_px.to_owned() }),
            stop_loss: Some(StopLoss { stop_price: sl_px.to_owned(), limit_price: None }),
        },
    )
}

// ----- submitting an order -----

/// What to do with an order.
#[derive(Clone, Debug)]
pub enum SubmitAction {
    /// The order is closed: do nothing.
    Ignore,
    /// Deny the order for this reason, without asking the broker.
    Deny(String),
    /// Reject the order for this reason, without asking the broker.
    Reject(String),
    /// Hold the order until an instant, then send the request.
    Hold {
        request: CreateOrderRequest,
        /// In nanoseconds of Unix time.
        release: u64,
    },
    /// The order was to be held but cannot be written on the wire: do nothing.
    Drop,
    /// Send the request.
    Send(CreateOrderRequest),
}

/// What to do with an order, with texts as sequences of characters.
pub enum Plan {
    Ignore,
    Deny(Seq<char>),
    Reject(Seq<char>),
    Hold(RequestView, int),
    Drop,
    Send(RequestView),
}

impl View for SubmitAction {
    type V = Plan;

    open spec fn view(&self) -> Plan {
        match self {
            SubmitAction::Ignore => Plan::Ignore,
            SubmitAction::Deny(reason) => Plan::Deny(reason@),
            SubmitAction::Reject(reason) => Plan::Reject(reason@),
            SubmitAction::Hold { request, release } => Plan::Hold(request@, *release as int),
            SubmitAction::Drop => Plan::Drop,
            SubmitAction::Send(request) => Plan::Send(request@),
        }
    }
}

/// The order as the gatekeeper sees it.
pub open spec fn info_of(order: OrderView, snapshot: Snapshot) -> OrderInfo {
    OrderInfo {
        side: order.side,
        order_type: order.order_type,
        quantity: order.quantity,
        limit_price: order.price,
        reference_price: reference_of(snapshot),
    }
}

/// What the gatekeeper says of an order; `None` where a number does not fit.
pub open spec fn gate(
    order: OrderView,
    snapshot: Snapshot,
    limits: GatekeeperLimits,
) -> Option<Verdict> {
    match account_of(snapshot, order.symbol@) {
        None => None,
        Some(account) => verdict(info_of(order, snapshot), account, limits),
    }
}

/// Whether what the gatekeeper says goes by the exact numbers, where every step is known to be
/// exact.
pub open spec fn gate_is_exact(
    order: OrderView,
    snapshot: Snapshot,
    limits: GatekeeperLimits,
) -> bool {
    &&& account_is_exact(snapshot, order.symbol@)
    &&& account_of(snapshot, order.symbol@) matches Some(account) ==> goes_by_exact_numbers(
        info_of(order, snapshot),
        account,
        limits,
    )
}

/// Asks the gatekeeper; `None` where a number does not fit.
pub fn ask_gatekeeper(order: &OrderView, snapshot: &Snapshot, limits: &GatekeeperLimits) -> (r:
    Option<Decision>)
    ensures
        match r {
            Some(d) => gate(*order, *snapshot, *limits) == Some(d@),
            None => gate(*order, *snapshot, *limits) is None,
        },
        gate_is_exact(*order, *snapshot, *limits),
{
    let info = OrderInfo {
        side: order.side,
        order_type: order.order_type,
        quantity: order.quantity,
        limit_price: order.price,
        reference_price: reference_price_for(snapshot),
    };
    match account_info_for(snapshot, order.symbol.as_str()) {
        None => None,
        Some(account) => try_check(&info, &account, limits),
    }
}

/// Whether an order depends on others. A plain order may say so with no contingency at all, or
/// with the one that stands for none.
pub open spec fn is_contingent(order: OrderView) -> bool {
    order.contingency matches Some(c) && c != ContingencyType::NoContingency
}

/// The trailing offset of an order, where it is a price.
pub open spec fn trailing_price(order: OrderView) -> Option<Dec> {
    match order.trailing_offset_type {
        Some(TrailingOffsetType::Price) => order.trailing_offset,
        Some(TrailingOffsetType::Ticks) => order.trailing_offset,
        _ => None,
    }
}

/// The shape of an order.
pub open spec fn shape_of(order: OrderView) -> OrderShape {
    OrderShape {
        order_type: order.order_type,
        time_in_force: order.time_in_force,
        is_complex: order.is_emulated || is_contingent(order),
        limit_price: order.price,
        stop_price: order.trigger_price,
        trail_price: trailing_price(order),
    }
}

/// The shape of an order.
pub fn order_shape(order: &OrderView) -> (r: OrderShape)
    ensures
        r == shape_of(*order),
{
    let contingent = match order.contingency {
        Some(c) => c != ContingencyType::NoContingency,
        None => false,
    };
    let trail_price = match order.trailing_offset_type {
        Some(TrailingOffsetType::Price) | Some(TrailingOffsetType::Ticks) => order.trailing_offset,
        _ => None,
    };
    OrderShape {
        order_type: order.order_type,
        time_in_force: order.time_in_force,
        is_complex: order.is_emulated || contingent,
        limit_price: order.price,
        stop_price: order.trigger_price,
        trail_price,
    }
}

/// Whether an order is to be held until the open where the session rejects it.
pub open spec fn is_queueable(tags: Seq<String>) -> bool {
    exists|i: int| 0 <= i < tags.len() && (#[trigger] tags[i])@ == QUEUE_FOR_OPEN_TAG@
}

/// Whether an order is to be held until the open where the session rejects it.
pub fn has_queue_tag(tags: &Vec<String>) -> (r: bool)
    ensures
        r == is_queueable(tags@),
{
    let mut i: usize = 0;
    while i < tags.len()
        invariant
            i <= tags@.len(),
            forall|k: int| 0 <= k < i ==> (#[trigger] tags@[k])@ != QUEUE_FOR_OPEN_TAG@,
        decreases tags@.len() - i,
    {
        if same_text(tags[i].as_str(), QUEUE_FOR_OPEN_TAG) {
            assert(tags@[i as int]@ == QUEUE_FOR_OPEN_TAG@);
            return true;
        }
        i = i + 1;
    }
    false
}

/// What to do with an order that the validator accepts.
pub open spec fn send_plan(order: OrderView, extended_hours: bool) -> Plan {
    if side_wire(order.side) is None {
        Plan::Deny("invalid order side: "@ + wire_error(order))
    } else if type_wire(order.order_type) is None {
        Plan::Deny("unsupported order type: "@ + wire_error(order))
    } else if tif_wire(order.time_in_force) is None {
        Plan::Deny("unsupported time-in-force: "@ + wire_error(order))
    } else {
        Plan::Send(request_of(order, extended_hours))
    }
}

/// What to do with an order that is held until `release`. One that is released at the pre-market
/// open is sent for extended hours.
pub open spec fn hold_plan(order: OrderView, release: int) -> Plan {
    if sendable(order) {
        Plan::Hold(request_of(order, released_premarket(shape_of(order))), release)
    } else {
        Plan::Drop
    }
}

/// The earliest open at which an order of this shape may be released.
pub open spec fn release_of<C: MarketCalendar>(calendar: C, shape: OrderShape, now: u64) -> int {
    if released_premarket(shape) {
        calendar.premarket_open(now)
    } else {
        calendar.regular_open(now)
    }
}

/// What the validator's verdict comes to.
pub open spec fn validated_plan<C: MarketCalendar>(
    order: OrderView,
    calendar: C,
    now: u64,
) -> Plan {
    match judgement(shape_of(order), calendar.session(now)) {
        Judgement::Valid(extended_hours) => send_plan(order, extended_hours),
        Judgement::StructureReject(reason) => Plan::Reject("validator: "@ + reason),
        Judgement::SessionReject(reason) => if is_queueable(order.tags@) {
            hold_plan(order, release_of(calendar, shape_of(order), now))
        } else {
            Plan::Reject("validator: "@ + reason)
        },
    }
}

/// What to do with an order: first the gatekeeper is asked, then the wash-trade guard, then the
/// validator. `None` where a number that one of them needs does not fit in a decimal.
pub open spec fn submit_plan<C: MarketCalendar>(
    order: OrderView,
    snapshot: Snapshot,
    limits: GatekeeperLimits,
    calendar: C,
    now: u64,
) -> Option<Plan> {
    if order.is_closed {
        Some(Plan::Ignore)
    } else {
        match (gate(order, snapshot, limits), guard(order, snapshot)) {
            (None, _) => None,
            (Some(Verdict::Deny(reason)), _) => Some(Plan::Deny("gatekeeper: "@ + reason)),
            (Some(Verdict::Allow), Wash::Unfit) => None,
            (Some(Verdict::Allow), Wash::Refused(reason)) => Some(
                Plan::Deny("wash-guard: "@ + reason),
            ),
            (Some(Verdict::Allow), Wash::Clear) => Some(validated_plan(order, calendar, now)),
        }
    }
}

/// Whether a calendar can answer at `now`.
pub open spec fn in_reach<C: MarketCalendar>(calendar: C, now: u64) -> bool {
    &&& calendar.covers(now)
    &&& calendar.covers_regular(now)
    &&& calendar.covers_premarket(now)
}

/// The action for an order that the validator accepts.
fn send_action(order: &OrderView, extended_hours: bool) -> (r: SubmitAction)
    ensures
        r@ == send_plan(*order, extended_hours),
        r is Send ==> trails_exactly(*order),
{
    if let Err(e) = order_side_to_alpaca(order.side) {
        return SubmitAction::Deny("invalid order side: ".to_owned().concat(e.text().as_str()));
    }
    if let Err(e) = order_type_to_alpaca(order.order_type) {
        return SubmitAction::Deny("unsupported order type: ".to_owned().concat(e.text().as_str()));
    }
    match build_request(order, extended_hours) {
        Ok(request) => SubmitAction::Send(request),
        Err(e) => SubmitAction::Deny(
            "unsupported time-in-force: ".to_owned().concat(e.text().as_str()),
        ),
    }
}

/// The action for an order that is held until `release`.
pub fn queue_until_open(order: &OrderView, release: u64) -> (r: SubmitAction)
    ensures
        r@ == hold_plan(*order, release as int),
        r is Hold ==> trails_exactly(*order),
{
    match build_request(order, is_released_premarket(&order_shape(order))) {
        Ok(request) => SubmitAction::Hold { request, release },
        Err(_) => SubmitAction::Drop,
    }
}

/// Decides what to do with an order; `None` where a number on the way does not fit in a decimal. A
/// held order passes the validator when it is released, and goes out as it was held.
pub fn submit_order<C: MarketCalendar>(
    order: &OrderView,
    snapshot: &Snapshot,
    limits: &GatekeeperLimits,
    validator: &OrderValidator<C>,
    now: u64,
) -> (r: Option<SubmitAction>)
    requires
        in_reach(validator.calendar, now),
    ensures
        match r {
            Some(action) => submit_plan(*order, *snapshot, *limits, validator.calendar, now)
                == Some(action@),
            None => submit_plan(*order, *snapshot, *limits, validator.calendar, now) is None,
        },
        !order.is_closed ==> gate_is_exact(*order, *snapshot, *limits),
        !order.is_closed && gate(*order, *snapshot, *limits) == Some(Verdict::Allow)
            ==> guard_is_exact(*order, *snapshot),
        r matches Some(action) && (action is Send || action is Hold) ==> trails_exactly(*order),
        r matches Some(SubmitAction::Hold { request, release }) ==> release_plan(
            *order,
            validator.calendar,
            release,
        ) == Plan::Send(request@),
{
    if order.is_closed {
        return Some(SubmitAction::Ignore);
    }
    match ask_gatekeeper(order, snapshot, limits) {
        None => return None,
        Some(Decision::Deny { reason }) => {
            return Some(SubmitAction::Deny("gatekeeper: ".to_owned().concat(reason.as_str())));
        },
        Some(Decision::Allow) => {},
    }
    match wash_reason_for(order, snapshot) {
        None => return None,
        Some(Some(reason)) => {
            return Some(SubmitAction::Deny("wash-guard: ".to_owned().concat(reason.as_str())));
        },
        Some(None) => {},
    }
    let shape = order_shape(order);
    match validator.validate(&shape, now) {
        Validity::Valid { extended_hours } => Some(send_action(order, extended_hours)),
        Validity::StructureReject { reason } => Some(
            SubmitAction::Reject("validator: ".to_owned().concat(reason.as_str())),
        ),
        Validity::SessionReject { reason } => if has_queue_tag(&order.tags) {
            let release = validator.earliest_valid_open(&shape, now);
            let action = queue_until_open(order, release);
            proof {
                if let SubmitAction::Hold { request, .. } = &action {
                    held_orders_go_out_as_held(*order, validator.calendar, release, request@);
                }
            }
            Some(action)
        } else {
            Some(SubmitAction::Reject("validator: ".to_owned().concat(reason.as_str())))
        },
    }
}

/// What to do with a held order once its release has come: the validator is asked again.
pub open spec fn release_plan<C: MarketCalendar>(order: OrderView, calendar: C, now: u64) -> Plan {
    match judgement(shape_of(order), calendar.session(now)) {
        Judgement::Valid(extended_hours) => send_plan(order, extended_hours),
        Judgement::StructureReject(reason) => Plan::Reject("validator: "@ + reason),
        Judgement::SessionReject(reason) => Plan::Reject("validator: "@ + reason),
    }
}

/// Decides what to do with a held order once its release has come.
pub fn release_order<C: MarketCalendar>(
    order: &OrderView,
    validator: &OrderValidator<C>,
    now: u64,
) -> (r: SubmitAction)
    requires
        validator.calendar.covers(now),
    ensures
        r@ == release_plan(*order, validator.calendar, now),
        r is Send ==> trails_exactly(*order),
{
    match validator.validate(&order_shape(order), now) {
        Validity::Valid { extended_hours } => send_action(order, extended_hours),
        Validity::StructureReject { reason } | Validity::SessionReject { reason } => {
            SubmitAction::Reject("validator: ".to_owned().concat(reason.as_str()))
        },
    }
}

/// How long a held order still waits: nothing once its release has passed.
pub fn hold_delay(release: u64, now: u64) -> (r: u64)
    ensures
        r == if release > now {
            release - now
        } else {
            0
        },
{
    if release > now {
        release - now
    } else {
        0
    }
}

// ----- submitting a bracket -----

/// An order of a list.
#[derive(Clone, Debug)]
pub struct Leg {
    /// Whether the order waits for another one of the list.
    pub has_parent: bool,
    pub order: OrderView,
}

/// What to do with a list of orders; `entry` is the place of the entry in the list.
#[derive(Clone, Debug)]
pub enum ListAction {
    /// The list has no entry.
    NoEntry,
    /// Deny the entry for this reason.
    Deny { entry: usize, reason: String },
    /// Reject the entry for this reason.
    Reject { entry: usize, reason: String },
    /// Hold the bracket until an instant, then send the request.
    Hold { entry: usize, request: CreateOrderRequest, release: u64 },
    /// Send the request.
    Send { entry: usize, request: CreateOrderRequest },
}

/// What to do with a list of orders, with texts as sequences of characters.
pub enum ListPlan {
    NoEntry,
    Entry(int, Plan),
}

impl View for ListAction {
    type V = ListPlan;

    open spec fn view(&self) -> ListPlan {
        match self {
            ListAction::NoEntry => ListPlan::NoEntry,
            ListAction::Deny { entry, reason } => ListPlan::Entry(
                *entry as int,
                Plan::Deny(reason@),
            ),
            ListAction::Reject { entry, reason } => ListPlan::Entry(
                *entry as int,
                Plan::Reject(reason@),
            ),
            ListAction::Hold { entry, request, release } => ListPlan::Entry(
                *entry as int,
                Plan::Hold(request@, *release as int),
            ),
            ListAction::Send { entry, request } => ListPlan::Entry(
                *entry as int,
                Plan::Send(request@),
            ),
        }
    }
}

/// The place of the last of the first `n` orders without a parent: the entry.
pub open spec fn entry_of(legs: Seq<Leg>, n: int) -> Option<int>
    decreases n,
{
    if n <= 0 {
        None
    } else if !legs[n - 1].has_parent {
        Some(n - 1)
    } else {
        entry_of(legs, n - 1)
    }
}

/// The price of the last limit order with a parent among the first `n` orders: the take-profit.
pub open spec fn take_profit_of(legs: Seq<Leg>, n: int) -> Option<Seq<char>>
    decreases n,
{
    if n <= 0 {
        None
    } else if legs[n - 1].has_parent && legs[n - 1].order.order_type == OrderType::Limit {
        price_shown(legs[n - 1].order.price)
    } else {
        take_profit_of(legs, n - 1)
    }
}

/// The trigger price of the last order with a parent that is not a limit order, among the first
/// `n` orders: the stop-loss.
pub open spec fn stop_loss_of(legs: Seq<Leg>, n: int) -> Option<Seq<char>>
    decreases n,
{
    if n <= 0 {
        None
    } else if legs[n - 1].has_parent && legs[n - 1].order.order_type != OrderType::Limit {
        price_shown(legs[n - 1].order.trigger_price)
    } else {
        stop_loss_of(legs, n - 1)
    }
}

/// The shape of a bracket.
pub open spec fn bracket_shape(entry: OrderView) -> OrderShape {
    OrderShape {
        order_type: entry.order_type,
        time_in_force: entry.time_in_force,
        is_complex: true,
        limit_price: entry.price,
        stop_price: entry.trigger_price,
        trail_price: None,
    }
}

/// What the validator's verdict on a bracket comes to.
pub open spec fn validated_bracket<C: MarketCalendar>(
    entry: OrderView,
    tp: Seq<char>,
    sl: Seq<char>,
    calendar: C,
    now: u64,
) -> Plan {
    match judgement(bracket_shape(entry), calendar.session(now)) {
        Judgement::Valid(_) => if sendable(entry) {
            Plan::Send(bracket_of(entry, tp, sl))
        } else {
            Plan::Deny("bracket build failed: "@ + wire_error(entry))
        },
        Judgement::StructureReject(reason) => Plan::Reject("validator: "@ + reason),
        Judgement::SessionReject(reason) => if !is_queueable(entry.tags@) {
            Plan::Reject("validator: "@ + reason)
        } else if sendable(entry) {
            Plan::Hold(bracket_of(entry, tp, sl), calendar.regular_open(now))
        } else {
            Plan::Deny("queued bracket build failed: "@ + wire_error(entry))
        },
    }
}

/// What is said of a bracket without both of its legs.
pub open spec fn missing_leg_reason() -> Seq<char> {
    "bracket requires both take-profit and stop-loss legs"@
}

/// What to do with the entry of a bracket: both legs have to be there, then the gatekeeper is
/// asked, then the validator. `None` where a number that is needed does not fit in a decimal.
pub open spec fn bracket_plan<C: MarketCalendar>(
    entry: OrderView,
    tp: Option<Seq<char>>,
    sl: Option<Seq<char>>,
    snapshot: Snapshot,
    limits: GatekeeperLimits,
    calendar: C,
    now: u64,
) -> Option<Plan> {
    match (tp, sl) {
        (Some(tp), Some(sl)) => match gate(entry, snapshot, limits) {
            None => None,
            Some(Verdict::Deny(reason)) => Some(Plan::Deny("gatekeeper: "@ + reason)),
            Some(Verdict::Allow) => Some(validated_bracket(entry, tp, sl, calendar, now)),
        },
        _ => Some(Plan::Deny(missing_leg_reason())),
    }
}

/// What to do with a list of orders. `None` where a number that is needed does not fit.
pub open spec fn list_plan<C: MarketCalendar>(
    legs: Seq<Leg>,
    snapshot: Snapshot,
    limits: GatekeeperLimits,
    calendar: C,
    now: u64,
) -> Option<ListPlan> {
    let n = legs.len() as int;
    match entry_of(legs, n) {
        None => Some(ListPlan::NoEntry),
        Some(i) => match bracket_plan(
            legs[i].order,
            take_profit_of(legs, n),
            stop_loss_of(legs, n),
            snapshot,
            limits,
            calendar,
            now,
        ) {
            None => None,
            Some(plan) => Some(ListPlan::Entry(i, plan)),
        },
    }
}

/// The entry of a list, and the prices of its legs.
struct Resolved {
    entry: Option<usize>,
    take_profit: Option<String>,
    stop_loss: Option<String>,
}

fn resolve_legs(legs: &Vec<Leg>) -> (r: Resolved)
    ensures
        match r.entry {
            Some(i) => entry_of(legs@, legs@.len() as int) == Some(i as int) && i < legs@.len(),
            None => entry_of(legs@, legs@.len() as int) is None,
        },
        text_view(r.take_profit) == take_profit_of(legs@, legs@.len() as int),
        text_view(r.stop_loss) == stop_loss_of(legs@, legs@.len() as int),
{
    let mut entry: Option<usize> = None;
    let mut take_profit: Option<String> = None;
    let mut stop_loss: Option<String> = None;
    let mut i: usize = 0;
    while i < legs.len()
        invariant
            i <= legs@.len(),
            match entry {
                Some(k) => entry_of(legs@, i as int) == Some(k as int) && k < i,
                None => entry_of(legs@, i as int) is None,
            },
            text_view(take_profit) == take_profit_of(legs@, i as int),
            text_view(stop_loss) == stop_loss_of(legs@, i as int),
        decreases legs@.len() - i,
    {
        let leg = &legs[i];
        if !leg.has_parent {
            entry = Some(i);
        } else if leg.order.order_type == OrderType::Limit {
            take_profit = price_text(leg.order.price);
        } else {
            stop_loss = price_text(leg.order.trigger_price);
        }
        i = i + 1;
    }
    Resolved { entry, take_profit, stop_loss }
}

/// The place of the entry in a list of orders: the last one without a parent.
pub fn list_entry(legs: &Vec<Leg>) -> (r: Option<usize>)
    ensures
        match r {
            Some(i) => entry_of(legs@, legs@.len() as int) == Some(i as int) && i < legs@.len(),
            None => entry_of(legs@, legs@.len() as int) is None,
        },
{
    resolve_legs(legs).entry
}

/// The action for a bracket that is held until `release`.
pub fn queue_bracket_until_open(
    entry: usize,
    order: &OrderView,
    tp_px: &str,
    sl_px: &str,
    release: u64,
) -> (r: ListAction)
    ensures
        r@ == ListPlan::Entry(
            entry as int,
            if sendable(*order) {
                Plan::Hold(bracket_of(*order, tp_px@, sl_px@), release as int)
            } else {
                Plan::Deny("queued bracket build failed: "@ + wire_error(*order))
            },
        ),
{
    match build_bracket_request(order, tp_px, sl_px) {
        Ok(request) => ListAction::Hold { entry, request, release },
        Err(e) => ListAction::Deny {
            entry,
            reason: "queued bracket build failed: ".to_owned().concat(e.text().as_str()),
        },
    }
}

/// Decides what to do with a list of orders, which is taken to be a bracket; `None` where a number
/// on the way does not fit in a decimal.
pub fn submit_order_list<C: MarketCalendar>(
    legs: &Vec<Leg>,
    snapshot: &Snapshot,
    limits: &GatekeeperLimits,
    validator: &OrderValidator<C>,
    now: u64,
) -> (r: Option<ListAction>)
    requires
        in_reach(validator.calendar, now),
    ensures
        match r {
            Some(action) => list_plan(legs@, *snapshot, *limits, validator.calendar, now) == Some(
                action@,
            ),
            None => list_plan(legs@, *snapshot, *limits, validator.calendar, now) is None,
        },
        entry_of(legs@, legs@.len() as int) matches Some(i) ==> (take_profit_of(
            legs@,
            legs@.len() as int,
        ) is Some && stop_loss_of(legs@, legs@.len() as int) is Some ==> gate_is_exact(
            legs@[i].order,
            *snapshot,
            *limits,
        )),
{
    let resolved = resolve_legs(legs);
    let entry: usize = match resolved.entry {
        Some(i) => i,
        None => return Some(ListAction::NoEntry),
    };
    let order = &legs[entry].order;
    let (tp, sl) = match (&resolved.take_profit, &resolved.stop_loss) {
        (Some(tp), Some(sl)) => (tp, sl),
        _ => {
            return Some(
                ListAction::Deny {
                    entry,
                    reason: "bracket requires both take-profit and stop-loss legs".to_owned(),
                },
            );
        },
    };
    match ask_gatekeeper(order, snapshot, limits) {
        None => return None,
        Some(Decision::Deny { reason }) => {
            return Some(
                ListAction::Deny {
                    entry,
                    reason: "gatekeeper: ".to_owned().concat(reason.as_str()),
                },
            );
        },
        Some(Decision::Allow) => {},
    }
    let shape = OrderShape {
        order_type: order.order_type,
        time_in_force: order.time_in_force,
        is_complex: true,
        limit_price: order.price,
        stop_price: order.trigger_price,
        trail_price: None,
    };
    match validator.validate(&shape, now) {
        Validity::Valid { .. } => match build_bracket_request(order, tp.as_str(), sl.as_str()) {
            Ok(request) => Some(ListAction::Send { entry, request }),
            Err(e) => Some(
                ListAction::Deny {
                    entry,
                    reason: "bracket build failed: ".to_owned().concat(e.text().as_str()),
                },
            ),
        },
        Validity::StructureReject { reason } => Some(
            ListAction::Reject { entry, reason: "validator: ".to_owned().concat(reason.as_str()) },
        ),
        Validity::SessionReject { reason } => if has_queue_tag(&order.tags) {
            let release = validator.earliest_valid_open(&shape, now);
            Some(queue_bracket_until_open(entry, order, tp.as_str(), sl.as_str(), release))
        } else {
            Some(
                ListAction::Reject {
                    entry,
                    reason: "validator: ".to_owned().concat(reason.as_str()),
                },
            )
        },
    }
}

// ----- answers to requests -----

/// The requests that change an order.
#[derive(Clone, Copy, Debug, PartialEq, Eq, Structural)]
pub enum RequestKind {
    Submit,
    SubmitBracket,
    QueuedSubmit,
    QueuedBracket,
    Cancel,
    Modify,
}

impl RequestKind {
    /// What the reason of a refusal begins with.
    pub open spec fn prefix(self) -> Seq<char> {
        match self {
            RequestKind::Submit => "submit-order-rejected: "@,
            RequestKind::SubmitBracket => "submit-bracket-rejected: "@,
            RequestKind::QueuedSubmit => "queued-submit-rejected: "@,
            RequestKind::QueuedBracket => "queued-bracket-rejected: "@,
            RequestKind::Cancel => "cancel-order-rejected: "@,
            RequestKind::Modify => "modify-order-rejected: "@,
        }
    }
}

/// The reason of a refused request.
pub fn refusal_reason(kind: RequestKind, error: &Error) -> (r: String)
    ensures
        r@ == kind.prefix() + error.shown(),
{
    let prefix = match kind {
        RequestKind::Submit => "submit-order-rejected: ",
        RequestKind::SubmitBracket => "submit-bracket-rejected: ",
        RequestKind::QueuedSubmit => "queued-submit-rejected: ",
        RequestKind::QueuedBracket => "queued-bracket-rejected: ",
        RequestKind::Cancel => "cancel-order-rejected: ",
        RequestKind::Modify => "modify-order-rejected: ",
    };
    prefix.to_owned().concat(error.text().as_str())
}

/// What becomes of a submitted order.
#[derive(Clone, Debug)]
pub enum Outcome {
    /// The broker accepted it under this id.
    Accepted(String),
    /// It was refused for this reason.
    Rejected(String),
}

/// What becomes of a submitted order for each answer.
pub fn submission_outcome(kind: RequestKind, answer: &Result<AlpacaOrder, Error>) -> (r: Outcome)
    ensures
        match (r, *answer) {
            (Outcome::Accepted(id), Ok(order)) => id@ == order.id@,
            (Outcome::Rejected(reason), Err(e)) => reason@ == kind.prefix() + e.shown(),
            _ => false,
        },
{
    match answer {
        Ok(order) => Outcome::Accepted(order.id.clone()),
        Err(e) => Outcome::Rejected(refusal_reason(kind, e)),
    }
}

/// The request to replace an order with what is given.
pub fn modify_request(quantity: Option<Dec>, price: Option<Dec>, trigger_price: Option<Dec>) -> (r:
    ReplaceOrderRequest)
    ensures
        text_view(r.qty) == (match quantity {
            Some(q) => Some(qty_shown(q)),
            None => None,
        }),
        text_view(r.limit_price) == price_shown(price),
        text_view(r.stop_price) == price_shown(trigger_price),
{
    let qty = match quantity {
        Some(q) => Some(format_qty(q)),
        None => None,
    };
    ReplaceOrderRequest { qty, limit_price: price_text(price), stop_price: price_text(trigger_price) }
}

/// An order to cancel: the broker's id that the command gives, and the one on record.
#[derive(Clone, Debug)]
pub struct CancelView {
    pub given: Option<String>,
    pub on_record: Option<String>,
}

impl CancelView {
    /// The broker's id: the given one, else the one on record.
    pub open spec fn id(self) -> Option<Seq<char>> {
        match self.given {
            Some(id) => Some(id@),
            None => text_view(self.on_record),
        }
    }
}

/// The broker's ids of the first `n` orders, those without one left out.
pub open spec fn ids_of(cancels: Seq<CancelView>, n: int) -> Seq<Seq<char>>
    decreases n,
{
    if n <= 0 {
        Seq::empty()
    } else {
        match cancels[n - 1].id() {
            Some(id) => ids_of(cancels, n - 1).push(id),
            None => ids_of(cancels, n - 1),
        }
    }
}

/// The broker's ids of the orders to cancel, in their order; an order without one is left out.
pub fn batch_cancel_orders(cancels: &Vec<CancelView>) -> (r: Vec<String>)
    ensures
        views(r@) == ids_of(cancels@, cancels@.len() as int),
{
    let mut out: Vec<String> = Vec::new();
    let mut i: usize = 0;
    while i < cancels.len()
        invariant
            i <= cancels@.len(),
            views(out@) == ids_of(cancels@, i as int),
        decreases cancels@.len() - i,
    {
        let ghost before = out@;
        match &cancels[i].given {
            Some(id) => {
                out.push(id.clone());
                assert(views(out@) =~= views(before).push(id@));
            },
            None => match &cancels[i].on_record {
                Some(id) => {
                    out.push(id.clone());
                    assert(views(out@) =~= views(before).push(id@));
                },
                None => {},
            },
        }
        i = i + 1;
    }
    out
}

// ----- connecting -----

/// What is said of an account that may not trade.
pub open spec fn blocked_reason(account: AlpacaAccount) -> Seq<char> {
    "Alpaca account "@ + account.id@ + " is blocked (trading_blocked="@ + bool_shown(
        account.trading_blocked,
    ) + ", account_blocked="@ + bool_shown(account.account_blocked) + ")"@
}

/// Refuses an account that may not trade.
pub fn check_account(account: &AlpacaAccount) -> (r: Result<(), String>)
    ensures
        r is Err <==> account.trading_blocked || account.account_blocked,
        r matches Err(reason) ==> reason@ == blocked_reason(*account),
{
    if account.trading_blocked || account.account_blocked {
        Err(
            "Alpaca account ".to_owned().concat(account.id.as_str()).concat(
                " is blocked (trading_blocked=",
            ).concat(bool_text(account.trading_blocked)).concat(", account_blocked=").concat(
                bool_text(account.account_blocked),
            ).concat(")"),
        )
    } else {
        Ok(())
    }
}

/// How long to wait for the account to be registered, in milliseconds.
pub const REGISTRATION_TIMEOUT_MS: u64 = 30_000;

/// What to do while waiting for the account to be registered.
#[derive(Clone, Copy, Debug, PartialEq, Eq, Structural)]
pub enum Registration {
    /// It is registered.
    Done,
    /// Look again after a pause.
    Wait,
    /// It takes too long.
    TimedOut,
}

/// What to do after looking for the account `waited_ms` after the wait began. The first look,
/// before the wait, never times out.
pub fn await_account_registered(registered: bool, waited_ms: Option<u64>) -> (r: Registration)
    ensures
        r == if registered {
            Registration::Done
        } else if waited_ms matches Some(ms) && ms >= REGISTRATION_TIMEOUT_MS {
            Registration::TimedOut
        } else {
            Registration::Wait
        },
{
    if registered {
        return Registration::Done;
    }
    match waited_ms {
        Some(ms) => if ms >= REGISTRATION_TIMEOUT_MS {
            Registration::TimedOut
        } else {
            Registration::Wait
        },
        None => Registration::Wait,
    }
}

/// The nanoseconds of a minute.
pub const MINUTE_NANOS: u64 = 60_000_000_000;

/// The instant from which a status report looks back, at the earliest the beginning of Unix time.
pub fn lookback_start(now: u64, lookback_mins: Option<u64>) -> (r: Option<u64>)
    requires
        lookback_mins matches Some(m) ==> m * MINUTE_NANOS <= u64::MAX,
    ensures
        match (lookback_mins, r) {
            (Some(m), Some(start)) => start == if now >= m * MINUTE_NANOS {
                now - m * MINUTE_NANOS
            } else {
                0
            },
            (None, None) => true,
            _ => false,
        },
{
    match lookback_mins {
        Some(m) => {
            let back: u64 = m * MINUTE_NANOS;
            if now >= back {
                Some(now - back)
            } else {
                Some(0)
            }
        },
        None => None,
    }
}

// ----- laws -----

/// The text that a price of a request has to be: that of the number, none where there is none.
pub open spec fn writes_price(text: Option<Seq<char>>, px: Option<Dec>) -> bool {
    match px {
        Some(d) => text == Some(decimal_text(d)),
        None => text is None,
    }
}

/// The request for a simple order carries each part of the order in the field of its own name. The
/// limit price is the order's price, whatever its type. The stop price is the order's trigger price
/// whatever its type, but for the two trailing types, which carry none. An expiry goes out only
/// with an order that is good till a date.
pub proof fn requests_carry_each_part(order: OrderView, extended_hours: bool)
    ensures
        ({
            let request = request_of(order, extended_hours);
            &&& request.symbol == order.symbol@
            &&& request.client_order_id == Some(order.client_order_id@)
            &&& writes_price(request.limit_price, order.price)
            &&& order.order_type == OrderType::Market || order.order_type == OrderType::Limit
                || order.order_type == OrderType::StopMarket || order.order_type
                == OrderType::StopLimit || order.order_type == OrderType::MarketToLimit
                || order.order_type == OrderType::MarketIfTouched || order.order_type
                == OrderType::LimitIfTouched ==> writes_price(
                request.stop_price,
                order.trigger_price,
            )
            &&& order.order_type == OrderType::TrailingStopMarket || order.order_type
                == OrderType::TrailingStopLimit ==> request.stop_price is None
            &&& request.order_class is None
            &&& request.take_profit is None
            &&& request.stop_loss is None
            &&& request.expires_at is Some <==> order.time_in_force == TimeInForce::Gtd
                && order.expire_time is Some
            &&& request.expires_at matches Some(text) ==> text == rfc3339(order.expire_time->0)
            &&& request.extended_hours == Some(true) <==> extended_hours
            &&& request.extended_hours is None <==> !extended_hours
        }),
{
}

/// The words of a request: a purchase is "buy" and a sale "sell"; each type has its own word, but
/// that a market-to-limit order goes out as a market order and both trailing types as one; and the
/// two times in force that the broker takes are "day" and "gtc".
pub proof fn requests_use_the_wire_words(order: OrderView, extended_hours: bool)
    requires
        sendable(order),
    ensures
        ({
            let request = request_of(order, extended_hours);
            &&& order.side == OrderSide::Buy ==> request.side == "buy"@
            &&& order.side == OrderSide::Sell ==> request.side == "sell"@
            &&& order.side != OrderSide::NoOrderSide
            &&& request.order_type == match order.order_type {
                OrderType::Limit => "limit"@,
                OrderType::StopMarket => "stop"@,
                OrderType::StopLimit => "stop_limit"@,
                OrderType::TrailingStopMarket => "trailing_stop"@,
                OrderType::TrailingStopLimit => "trailing_stop"@,
                _ => "market"@,
            }
            &&& order.order_type != OrderType::MarketIfTouched && order.order_type
                != OrderType::LimitIfTouched
            &&& order.time_in_force == TimeInForce::Day || order.time_in_force == TimeInForce::Gtc
            &&& order.time_in_force == TimeInForce::Day ==> request.time_in_force == "day"@
            &&& order.time_in_force == TimeInForce::Gtc ==> request.time_in_force == "gtc"@
        }),
{
}

/// Every order that buys or sells, of a type and a time in force that the broker takes, can be
/// sent.
pub proof fn orders_in_scope_can_be_sent(order: OrderView)
    requires
        order.side == OrderSide::Buy || order.side == OrderSide::Sell,
        order.order_type != OrderType::MarketIfTouched,
        order.order_type != OrderType::LimitIfTouched,
        order.time_in_force == TimeInForce::Day || order.time_in_force == TimeInForce::Gtc,
    ensures
        sendable(order),
{
}

/// A trailing offset in basis points goes out as a percentage, one hundredth of it; one that is a
/// price or in ticks goes out as a price, as it is; any other one does not go out.
pub proof fn offsets_go_out_in_their_own_unit(order: OrderView, extended_hours: bool, offset: Dec)
    requires
        order.trailing_offset == Some(offset),
        offset.valid(),
        offset.places() + 2 <= MAX_PLACES,
        trails_exactly(order),
    ensures
        ({
            let request = request_of(order, extended_hours);
            &&& order.trailing_offset_type == Some(TrailingOffsetType::BasisPoints) ==> {
                &&& request.trail_price is None
                &&& exists|d: Dec|
                    request.trail_percent == Some(#[trigger] decimal_text(d)) && d.units() * 100
                        * ten_to(offset.places()) == offset.units() * ten_to(d.places())
            }
            &&& order.trailing_offset_type == Some(TrailingOffsetType::Price)
                || order.trailing_offset_type == Some(TrailingOffsetType::Ticks) ==> {
                &&& request.trail_percent is None
                &&& request.trail_price == Some(decimal_text(offset))
            }
            &&& order.trailing_offset_type != Some(TrailingOffsetType::BasisPoints)
                && order.trailing_offset_type != Some(TrailingOffsetType::Price)
                && order.trailing_offset_type != Some(TrailingOffsetType::Ticks) ==> {
                &&& request.trail_percent is None
                &&& request.trail_price is None
            }
        }),
{
    broadcast use dec_parts;

    if order.trailing_offset_type == Some(TrailingOffsetType::BasisPoints) {
        let d = decimal_quotient(offset, Dec::of(100, 0))->0;
        assert(is_quotient(offset, Dec::of(100, 0), d));
        assert(request_of(order, extended_hours).trail_percent == Some(decimal_text(d)));
    }
}

/// The quantity of a request is the order's: exactly, where it has at most nine decimal places,
/// else the nearest number with nine. It is written without trailing zeros among its decimals, so a
/// whole number of shares without a point.
pub proof fn quantities_are_sent_in_full(quantity: Dec)
    requires
        quantity.valid(),
    ensures
        exists|d: Dec|
            {
                &&& qty_shown(quantity) == #[trigger] decimal_text(d)
                &&& d.valid()
                &&& d.places() <= 9
                &&& d.places() > 0 ==> d.units() % 10 != 0
                &&& quantity.places() <= 9 ==> aligned(d, MAX_PLACES as nat) == aligned(
                    quantity,
                    MAX_PLACES as nat,
                )
                &&& quantity.places() > 9 ==> 2 * magnitude(
                    aligned(quantity, quantity.places()) - aligned(d, quantity.places()),
                ) <= ten_to((quantity.places() - 9) as nat)
            },
{
    let cut = cut_to(quantity, 9);
    let d = normalized(cut);
    cutting_goes_to_the_nearest(quantity, 9);
    normalizing_keeps_the_value(cut, MAX_PLACES as nat);
    if quantity.places() > 9 {
        normalizing_keeps_the_value(cut, quantity.places());
    }
    assert(qty_shown(quantity) == decimal_text(d));
}

/// The request for a bracket carries each part of its entry, and the prices of its legs: the
/// take-profit's as the limit price of the one, the stop-loss's as the stop price of the other.
pub proof fn bracket_requests_carry_each_part(entry: OrderView, tp: Seq<char>, sl: Seq<char>)
    requires
        sendable(entry),
    ensures
        ({
            let request = bracket_of(entry, tp, sl);
            &&& request.symbol == entry.symbol@
            &&& request.client_order_id == Some(entry.client_order_id@)
            &&& writes_price(request.limit_price, entry.price)
            &&& request.side == request_of(entry, false).side
            &&& request.order_type == request_of(entry, false).order_type
            &&& request.time_in_force == request_of(entry, false).time_in_force
            &&& request.qty == request_of(entry, false).qty
            &&& request.order_class == Some("bracket"@)
            &&& request.take_profit == Some(tp)
            &&& request.stop_loss == Some((sl, None::<Seq<char>>))
            &&& request.stop_price is None
            &&& request.trail_percent is None
            &&& request.trail_price is None
            &&& request.expires_at is None
            &&& request.extended_hours is None
        }),
{
}

// What a sum over positions is does not depend on those that it leaves out.
proof fn sums_look_back(a: Seq<PositionView>, b: Seq<PositionView>, symbol: Seq<char>, n: int)
    requires
        0 <= n <= a.len(),
        n <= b.len(),
        forall|k: int| 0 <= k < n ==> a[k] == b[k],
    ensures
        gross_of(a, n) == gross_of(b, n),
        net_of(a, symbol, n) == net_of(b, symbol, n),
        cost_of(a, symbol, n) == cost_of(b, symbol, n),
        count_of(a, symbol, n) == count_of(b, symbol, n),
        position_in(a, symbol, n) == position_in(b, symbol, n),
    decreases n,
{
    if n > 0 {
        sums_look_back(a, b, symbol, n - 1);
    }
}

/// A further open position adds to gross exposure what it cost, its quantity at its average price,
/// whichever way it goes: a short position adds as much as a long one of its size. Without
/// positions gross exposure is nothing. (The product and the sum are exact.)
pub proof fn each_position_adds_its_cost(
    positions: Seq<PositionView>,
    p: PositionView,
    gross: Dec,
    cost: Dec,
    after: Dec,
)
    requires
        gross_of(positions, positions.len() as int) == Some(gross),
        gross.valid(),
        p.signed_qty.valid(),
        p.avg_px.valid(),
        product_in_range(p.signed_qty, p.avg_px) == Some(cost),
        decimal_product(p.signed_qty, p.avg_px) == Some(cost),
        sum_in_range(gross, cost.absolute()) == Some(after),
        decimal_sum(gross, cost.absolute()) == Some(after),
    ensures
        gross_of(positions.push(p), positions.len() as int + 1) == Some(after),
        gross_of(Seq::empty(), 0) == Some(Dec::nought()),
        ({
            let s = MAX_PLACES as nat;
            aligned(after, s + s) == aligned(gross, s + s) + magnitude(
                aligned(p.signed_qty, s) * aligned(p.avg_px, s),
            )
        }),
{
    let s = MAX_PLACES as nat;
    let more = positions.push(p);
    assert forall|k: int| 0 <= k < positions.len() implies positions[k] == more[k] by {}
    sums_look_back(positions, more, p.symbol@, positions.len() as int);
    product_value(p.signed_qty, p.avg_px, cost, s, s);
    aligned_absolute(cost, s + s);
    sum_value(gross, cost.absolute(), after, s + s);
}

/// A further open position adds its signed quantity to what is held of its own symbol, and changes
/// nothing of what is held of any other. Without positions nothing is held. (The sum is exact.)
pub proof fn each_position_counts_for_its_symbol(
    positions: Seq<PositionView>,
    p: PositionView,
    symbol: Seq<char>,
    net: Dec,
    after: Dec,
)
    requires
        net_of(positions, symbol, positions.len() as int) == Some(net),
        net.valid(),
        p.signed_qty.valid(),
        sum_in_range(net, p.signed_qty) == Some(after),
        decimal_sum(net, p.signed_qty) == Some(after),
    ensures
        p.symbol@ != symbol ==> net_of(positions.push(p), symbol, positions.len() as int + 1) == Some(net),
        p.symbol@ == symbol ==> net_of(positions.push(p), symbol, positions.len() as int + 1) == Some(
            after,
        ),
        net_of(Seq::empty(), symbol, 0) == Some(Dec::nought()),
        aligned(after, MAX_PLACES as nat) == aligned(net, MAX_PLACES as nat) + aligned(
            p.signed_qty,
            MAX_PLACES as nat,
        ),
{
    let more = positions.push(p);
    assert forall|k: int| 0 <= k < positions.len() implies positions[k] == more[k] by {}
    sums_look_back(positions, more, symbol, positions.len() as int);
    sum_value(net, p.signed_qty, after, MAX_PLACES as nat);
}

proof fn none_in_symbol(positions: Seq<PositionView>, symbol: Seq<char>, n: int)
    requires
        0 <= n <= positions.len(),
        forall|k: int| 0 <= k < n ==> (#[trigger] positions[k]).symbol@ != symbol,
    ensures
        count_of(positions, symbol, n) == 0,
        net_of(positions, symbol, n) == Some(Dec::nought()),
        cost_of(positions, symbol, n) == Some(Dec::nought()),
    decreases n,
{
    if n > 0 {
        none_in_symbol(positions, symbol, n - 1);
    }
}

proof fn one_in_symbol(positions: Seq<PositionView>, symbol: Seq<char>, i: int, n: int)
    requires
        0 <= i < n <= positions.len(),
        forall|k: int|
            0 <= k < positions.len() ==> ((#[trigger] positions[k]).symbol@ == symbol <==> k == i),
    ensures
        count_of(positions, symbol, n) == 1,
        position_in(positions, symbol, n) == Some(positions[i]),
        net_of(positions, symbol, n) == decimal_sum(Dec::nought(), positions[i].signed_qty),
    decreases n,
{
    if n == i + 1 {
        none_in_symbol(positions, symbol, i);
    } else {
        one_in_symbol(positions, symbol, i, n - 1);
    }
}

/// The average price of a symbol with one position is that position's; of a symbol with none it is
/// zero, and nothing is held of it.
pub proof fn the_average_price_is_the_positions_own(
    positions: Seq<PositionView>,
    symbol: Seq<char>,
    i: int,
)
    ensures
        0 <= i < positions.len() && (forall|k: int|
            0 <= k < positions.len() ==> ((#[trigger] positions[k]).symbol@ == symbol <==> k == i))
            ==> average_of(positions, symbol) == Some(positions[i].avg_px),
        (forall|k: int| 0 <= k < positions.len() ==> (#[trigger] positions[k]).symbol@ != symbol)
            ==> average_of(positions, symbol) == Some(Dec::nought()) && net_of(
            positions,
            symbol,
            positions.len() as int,
        ) == Some(Dec::nought()),
{
    broadcast use dec_parts;

    if 0 <= i < positions.len() && (forall|k: int|
        0 <= k < positions.len() ==> ((#[trigger] positions[k]).symbol@ == symbol <==> k == i)) {
        one_in_symbol(positions, symbol, i, positions.len() as int);
    }
    if forall|k: int| 0 <= k < positions.len() ==> (#[trigger] positions[k]).symbol@ != symbol {
        none_in_symbol(positions, symbol, positions.len() as int);
    }
}

proof fn several_in_symbol(positions: Seq<PositionView>, symbol: Seq<char>, i: int, j: int, n: int)
    requires
        0 <= n <= positions.len(),
        positions[i].symbol@ == symbol,
        positions[j].symbol@ == symbol,
    ensures
        0 <= i < n ==> count_of(positions, symbol, n) >= 1,
        0 <= i < j < n ==> count_of(positions, symbol, n) >= 2,
    decreases n,
{
    if n > 0 {
        several_in_symbol(positions, symbol, i, j, n - 1);
        if j == n - 1 && 0 <= i < j {
            several_in_symbol(positions, symbol, i, i, n - 1);
        }
    }
}

/// A further open position adds what it cost to the cost of its own symbol, a short position as a
/// negative amount, and changes nothing of the cost of any other. Without positions the cost is
/// nothing. (The product and the sum are exact.)
pub proof fn each_position_costs_its_symbol(
    positions: Seq<PositionView>,
    p: PositionView,
    symbol: Seq<char>,
    cost: Dec,
    own: Dec,
    after: Dec,
)
    requires
        cost_of(positions, symbol, positions.len() as int) == Some(cost),
        cost.valid(),
        p.signed_qty.valid(),
        p.avg_px.valid(),
        product_in_range(p.signed_qty, p.avg_px) == Some(own),
        decimal_product(p.signed_qty, p.avg_px) == Some(own),
        sum_in_range(cost, own) == Some(after),
        decimal_sum(cost, own) == Some(after),
    ensures
        p.symbol@ != symbol ==> cost_of(positions.push(p), symbol, positions.len() as int + 1)
            == Some(cost),
        p.symbol@ == symbol ==> cost_of(positions.push(p), symbol, positions.len() as int + 1)
            == Some(after),
        cost_of(Seq::empty(), symbol, 0) == Some(Dec::nought()),
        ({
            let s = MAX_PLACES as nat;
            aligned(after, s + s) == aligned(cost, s + s) + aligned(p.signed_qty, s) * aligned(
                p.avg_px,
                s,
            )
        }),
{
    let s = MAX_PLACES as nat;
    let more = positions.push(p);
    assert forall|k: int| 0 <= k < positions.len() implies positions[k] == more[k] by {}
    sums_look_back(positions, more, symbol, positions.len() as int);
    product_value(p.signed_qty, p.avg_px, own, s, s);
    sum_value(cost, own, after, s + s);
}

/// Where several positions are in one symbol, the average price times the quantity held is what
/// they cost together. (The quotient is exact.)
pub proof fn the_average_price_spreads_the_cost(
    positions: Seq<PositionView>,
    symbol: Seq<char>,
    i: int,
    j: int,
    net: Dec,
    cost: Dec,
    exact: Dec,
)
    requires
        average_is_exact(positions, symbol),
        0 <= i < j < positions.len(),
        positions[i].symbol@ == symbol,
        positions[j].symbol@ == symbol,
        net_of(positions, symbol, positions.len() as int) == Some(net),
        cost_of(positions, symbol, positions.len() as int) == Some(cost),
        net.units() != 0,
        exact.valid(),
        is_quotient(cost, net, exact),
    ensures
        average_of(positions, symbol) matches Some(average) && average.units() * net.units()
            * ten_to(cost.places()) == cost.units() * ten_to(average.places() + net.places()),
{
    several_in_symbol(positions, symbol, i, j, positions.len() as int);
}

/// What the gatekeeper is told of an account: its equity, what is held of the order's symbol and at
/// what average price, and gross exposure, each in its own field.
pub proof fn account_fields_are_their_own(snapshot: Snapshot, symbol: Seq<char>)
    ensures
        account_of(snapshot, symbol) matches Some(account) ==> {
            let n = snapshot.positions@.len() as int;
            &&& account.equity == snapshot.equity
            &&& net_of(snapshot.positions@, symbol, n) == Some(account.symbol_net_qty)
            &&& average_of(snapshot.positions@, symbol) == Some(account.symbol_avg_px)
            &&& gross_of(snapshot.positions@, n) == Some(account.total_gross_exposure)
        },
{
}

/// What the gatekeeper is told of an order: its side, type, quantity and price, and as reference
/// price the middle of a quote whose bid and ask are both positive, else the latest trade's price.
pub proof fn order_fields_are_their_own(order: OrderView, snapshot: Snapshot)
    ensures
        ({
            let info = info_of(order, snapshot);
            &&& info.side == order.side
            &&& info.order_type == order.order_type
            &&& info.quantity == order.quantity
            &&& info.limit_price == order.price
            &&& snapshot.quote matches Some(q) ==> (q.bid.units() > 0 && q.ask.units() > 0
                ==> info.reference_price == Some(q.mid))
            &&& snapshot.quote matches Some(q) ==> (q.bid.units() <= 0 || q.ask.units() <= 0
                ==> info.reference_price == snapshot.last_trade)
            &&& snapshot.quote is None ==> info.reference_price == snapshot.last_trade
        }),
{
}

proof fn others_look_back(a: Seq<OpenOrder>, b: Seq<OpenOrder>, id: Seq<char>, n: int)
    requires
        0 <= n <= a.len(),
        n <= b.len(),
        forall|k: int| 0 <= k < n ==> a[k] == b[k],
    ensures
        others_of(a, id, n) == others_of(b, id, n),
    decreases n,
{
    if n > 0 {
        others_look_back(a, b, id, n - 1);
    }
}

/// The wash-trade guard sees every open order but the order itself, as it is: its side, the
/// quantity left on it and its limit price, whatever zeros they are written with.
pub proof fn the_guard_sees_every_other_order(orders: Seq<OpenOrder>, o: OpenOrder, id: Seq<char>)
    requires
        o.leaves_qty.valid(),
        o.price matches Some(px) ==> px.valid(),
    ensures
        ({
            let n = orders.len() as int;
            let before = others_of(orders, id, n);
            let after = others_of(orders.push(o), id, n + 1);
            let s = MAX_PLACES as nat;
            &&& o.client_order_id@ == id ==> after == before
            &&& o.client_order_id@ != id ==> {
                let seen = after.last();
                &&& after.len() == before.len() + 1
                &&& after.drop_last() == before
                &&& seen.is_buy <==> o.side == OrderSide::Buy
                &&& aligned(seen.leaves_qty, s) == aligned(o.leaves_qty, s)
                &&& seen.limit_price is Some <==> o.price is Some
                &&& o.price matches Some(px) ==> aligned(seen.limit_price->0, s) == aligned(px, s)
            }
        }),
{
    let more = orders.push(o);
    let n = orders.len() as int;
    assert forall|k: int| 0 <= k < n implies orders[k] == more[k] by {}
    others_look_back(orders, more, id, n);
    normalizing_keeps_the_value(o.leaves_qty, MAX_PLACES as nat);
    if let Some(px) = o.price {
        normalizing_keeps_the_value(px, MAX_PLACES as nat);
    }
    assert(others_of(orders, id, n).push(view_of(o)).drop_last() =~= others_of(orders, id, n));
}

/// The wash-trade guard judges an order by its own side, quantity and price, against what is held
/// of its symbol; an instrument of another venue is never held.
pub proof fn the_guard_sees_the_order(order: OrderView, snapshot: Snapshot)
    requires
        order.quantity.valid(),
        order.price matches Some(px) ==> px.valid(),
    ensures
        ({
            let seen = pending_of(order);
            let s = MAX_PLACES as nat;
            &&& seen.is_buy <==> order.side == OrderSide::Buy
            &&& aligned(seen.quantity, s) == aligned(order.quantity, s)
            &&& seen.limit_price is Some <==> order.price is Some
            &&& order.price matches Some(px) ==> aligned(seen.limit_price->0, s) == aligned(px, s)
        }),
        order.venue@ == "ALPACA"@ ==> held_of(order, snapshot) == net_of(
            snapshot.positions@,
            order.symbol@,
            snapshot.positions@.len() as int,
        ),
        order.venue@ != "ALPACA"@ ==> held_of(order, snapshot) == Some(Dec::nought()),
{
    normalizing_keeps_the_value(order.quantity, MAX_PLACES as nat);
    if let Some(px) = order.price {
        normalizing_keeps_the_value(px, MAX_PLACES as nat);
    }
}

/// The validator judges an order by its own type, time in force and prices. An order is complex
/// where it is emulated or depends on others; a trailing offset is a price where it is one or is in
/// ticks.
pub proof fn shapes_are_those_of_their_orders(order: OrderView)
    ensures
        ({
            let shape = shape_of(order);
            &&& shape.order_type == order.order_type
            &&& shape.time_in_force == order.time_in_force
            &&& shape.limit_price == order.price
            &&& shape.stop_price == order.trigger_price
            &&& shape.is_complex <==> {
                ||| order.is_emulated
                ||| order.contingency == Some(ContingencyType::Oco)
                ||| order.contingency == Some(ContingencyType::Oto)
                ||| order.contingency == Some(ContingencyType::Ouo)
            }
            &&& order.trailing_offset_type == Some(TrailingOffsetType::Price)
                || order.trailing_offset_type == Some(TrailingOffsetType::Ticks)
                ==> shape.trail_price == order.trailing_offset
            &&& order.trailing_offset_type != Some(TrailingOffsetType::Price)
                && order.trailing_offset_type != Some(TrailingOffsetType::Ticks)
                ==> shape.trail_price is None
        }),
        ({
            let shape = bracket_shape(order);
            &&& shape.order_type == order.order_type
            &&& shape.time_in_force == order.time_in_force
            &&& shape.limit_price == order.price
            &&& shape.stop_price == order.trigger_price
            &&& shape.is_complex
            &&& shape.trail_price is None
        }),
{
}

/// A held order is held until the next pre-market open, and marked for extended hours, exactly
/// where it is a simple limit order; any other one is held until the next regular open, without the
/// mark.
pub proof fn held_orders_wait_for_their_open<C: MarketCalendar>(
    order: OrderView,
    snapshot: Snapshot,
    limits: GatekeeperLimits,
    calendar: C,
    now: u64,
    request: RequestView,
    release: int,
)
    requires
        submit_plan(order, snapshot, limits, calendar, now) == Some(Plan::Hold(request, release)),
    ensures
        ({
            let early = order.order_type == OrderType::Limit && !order.is_emulated && (
            order.contingency is None || order.contingency == Some(ContingencyType::NoContingency));
            &&& early ==> release == calendar.premarket_open(now) && request.extended_hours == Some(
                true,
            )
            &&& !early ==> release == calendar.regular_open(now) && request.extended_hours is None
            &&& request == request_of(order, early)
        }),
        exists|k: int| 0 <= k < order.tags@.len() && (#[trigger] order.tags@[k])@
            == "queue_for_open"@,
{
}

/// An order that every check lets through is sent. One that only the session keeps back is held
/// where it carries the tag, else rejected. A closed order is ignored.
pub proof fn unobjectionable_orders_are_sent<C: MarketCalendar>(
    order: OrderView,
    snapshot: Snapshot,
    limits: GatekeeperLimits,
    calendar: C,
    now: u64,
    k: int,
)
    requires
        gate(order, snapshot, limits) == Some(Verdict::Allow),
        guard(order, snapshot) is Clear,
        sendable(order),
    ensures
        order.is_closed ==> submit_plan(order, snapshot, limits, calendar, now) == Some(
            Plan::Ignore,
        ),
        !order.is_closed && judgement(shape_of(order), calendar.session(now)) is Valid
            ==> submit_plan(order, snapshot, limits, calendar, now) matches Some(Plan::Send(_)),
        !order.is_closed && judgement(shape_of(order), calendar.session(now)) is SessionReject
            && 0 <= k < order.tags@.len() && order.tags@[k]@ == "queue_for_open"@ ==> submit_plan(
            order,
            snapshot,
            limits,
            calendar,
            now,
        ) matches Some(Plan::Hold(_, _)),
        !order.is_closed && judgement(shape_of(order), calendar.session(now)) is SessionReject
            && order.tags@.len() == 0 ==> submit_plan(order, snapshot, limits, calendar, now)
            matches Some(Plan::Reject(_)),
        !order.is_closed && judgement(shape_of(order), calendar.session(now)) is StructureReject
            ==> submit_plan(order, snapshot, limits, calendar, now) matches Some(Plan::Reject(_)),
{
}

/// The entry of a list is its last order without a parent; there is none exactly where every order
/// has one.
pub proof fn the_entry_has_no_parent(legs: Seq<Leg>, n: int)
    requires
        0 <= n <= legs.len(),
    ensures
        entry_of(legs, n) matches Some(i) ==> 0 <= i < n && !legs[i].has_parent && forall|k: int|
            i < k < n ==> (#[trigger] legs[k]).has_parent,
        entry_of(legs, n) is None <==> forall|k: int|
            0 <= k < n ==> (#[trigger] legs[k]).has_parent,
    decreases n,
{
    if n > 0 {
        the_entry_has_no_parent(legs, n - 1);
    }
}

/// The take-profit of a list is the price of its last limit order with a parent, and the stop-loss
/// the trigger price of its last other order with a parent.
pub proof fn legs_are_told_by_their_type(legs: Seq<Leg>, i: int, n: int)
    requires
        0 <= i < n <= legs.len(),
        legs[i].has_parent,
    ensures
        legs[i].order.order_type == OrderType::Limit && (forall|k: int|
            i < k < n ==> !((#[trigger] legs[k]).has_parent && legs[k].order.order_type
                == OrderType::Limit)) ==> writes_price(
            take_profit_of(legs, n),
            legs[i].order.price,
        ),
        legs[i].order.order_type != OrderType::Limit && (forall|k: int|
            i < k < n ==> !((#[trigger] legs[k]).has_parent && legs[k].order.order_type
                != OrderType::Limit)) ==> writes_price(
            stop_loss_of(legs, n),
            legs[i].order.trigger_price,
        ),
    decreases n,
{
    if i < n - 1 {
        legs_are_told_by_their_type(legs, i, n - 1);
    }
}

/// A list is decided on by its entry: it is sent, or held until the next regular open, as a bracket
/// with both legs, and it is denied where a leg is missing or the gatekeeper refuses the entry.
pub proof fn lists_are_decided_by_their_entry<C: MarketCalendar>(
    legs: Seq<Leg>,
    snapshot: Snapshot,
    limits: GatekeeperLimits,
    calendar: C,
    now: u64,
    i: int,
    plan: Plan,
)
    requires
        list_plan(legs, snapshot, limits, calendar, now) == Some(ListPlan::Entry(i, plan)),
    ensures
        0 <= i < legs.len(),
        !legs[i].has_parent,
        ({
            let n = legs.len() as int;
            let entry = legs[i].order;
            let tp = take_profit_of(legs, n);
            let sl = stop_loss_of(legs, n);
            &&& tp is None || sl is None ==> plan is Deny
            &&& tp is Some && sl is Some && gate(entry, snapshot, limits) != Some(Verdict::Allow)
                ==> plan is Deny
            &&& plan matches Plan::Send(request) ==> request == bracket_of(entry, tp->0, sl->0)
            &&& plan matches Plan::Hold(request, release) ==> request == bracket_of(
                entry,
                tp->0,
                sl->0,
            ) && release == calendar.regular_open(now) && (exists|k: int|
                0 <= k < entry.tags@.len() && (#[trigger] entry.tags@[k])@ == "queue_for_open"@)
            &&& plan !is Ignore && plan !is Drop
        }),
{
    the_entry_has_no_parent(legs, legs.len() as int);
}

/// Each order to cancel adds the broker's id that the command gives, else the one on record, and an
/// order with neither adds nothing.
pub proof fn each_cancel_adds_its_id(cancels: Seq<CancelView>, c: CancelView)
    ensures
        ({
            let before = ids_of(cancels, cancels.len() as int);
            let after = ids_of(cancels.push(c), cancels.len() as int + 1);
            &&& c.given matches Some(id) ==> after == before.push(id@)
            &&& c.given is None && c.on_record is Some ==> after == before.push(c.on_record->0@)
            &&& c.given is None && c.on_record is None ==> after == before
        }),
        ids_of(Seq::empty(), 0).len() == 0,
{
    let more = cancels.push(c);
    assert forall|k: int| 0 <= k < cancels.len() implies cancels[k] == more[k] by {}
    ids_look_back(cancels, more, cancels.len() as int);
}

proof fn ids_look_back(a: Seq<CancelView>, b: Seq<CancelView>, n: int)
    requires
        0 <= n <= a.len(),
        n <= b.len(),
        forall|k: int| 0 <= k < n ==> a[k] == b[k],
    ensures
        ids_of(a, n) == ids_of(b, n),
    decreases n,
{
    if n > 0 {
        ids_look_back(a, b, n - 1);
    }
}

/// An order that is sent has passed the gatekeeper, the wash-trade guard and the validator, and
/// what is sent is its request with the flag that the validator decided on.
pub proof fn sent_orders_passed_every_check<C: MarketCalendar>(
    order: OrderView,
    snapshot: Snapshot,
    limits: GatekeeperLimits,
    calendar: C,
    now: u64,
    request: RequestView,
)
    requires
        submit_plan(order, snapshot, limits, calendar, now) == Some(Plan::Send(request)),
    ensures
        !order.is_closed,
        gate(order, snapshot, limits) == Some(Verdict::Allow),
        guard(order, snapshot) is Clear,
        judgement(shape_of(order), calendar.session(now)) is Valid,
        sendable(order),
        request == request_of(
            order,
            judgement(shape_of(order), calendar.session(now))->Valid_0,
        ),
{
}

/// An order is held only for its session, and only when it is tagged: the tag never rescues an
/// order that a risk limit, the wash-trade guard or its structure refuses.
pub proof fn only_the_session_holds_orders<C: MarketCalendar>(
    order: OrderView,
    snapshot: Snapshot,
    limits: GatekeeperLimits,
    calendar: C,
    now: u64,
    request: RequestView,
    release: int,
)
    requires
        submit_plan(order, snapshot, limits, calendar, now) == Some(Plan::Hold(request, release)),
    ensures
        gate(order, snapshot, limits) == Some(Verdict::Allow),
        guard(order, snapshot) is Clear,
        judgement(shape_of(order), calendar.session(now)) is SessionReject,
        structure_problem(shape_of(order)) is None,
        is_queueable(order.tags@),
        release == release_of(calendar, shape_of(order), now),
{
}

/// A held order that is released at its opening passes the validator there, and goes out as it was
/// held. The session is the one that begins at that opening.
pub proof fn held_orders_go_out_as_held<C: MarketCalendar>(
    order: OrderView,
    calendar: C,
    release: u64,
    request: RequestView,
)
    requires
        structure_problem(shape_of(order)) is None,
        hold_plan(order, release as int) == Plan::Hold(request, release as int),
        calendar.session(release) == if released_premarket(shape_of(order)) {
            Session::PreMarket
        } else {
            Session::Regular
        },
    ensures
        release_plan(order, calendar, release) == Plan::Send(request),
{
}

/// A denied order never reaches the broker: whatever the gatekeeper or the guard refuses is
/// denied with its reason.
pub proof fn refused_orders_are_denied<C: MarketCalendar>(
    order: OrderView,
    snapshot: Snapshot,
    limits: GatekeeperLimits,
    calendar: C,
    now: u64,
    reason: Seq<char>,
)
    requires
        !order.is_closed,
    ensures
        gate(order, snapshot, limits) == Some(Verdict::Deny(reason)) ==> submit_plan(
            order,
            snapshot,
            limits,
            calendar,
            now,
        ) == Some(Plan::Deny("gatekeeper: "@ + reason)),
        gate(order, snapshot, limits) == Some(Verdict::Allow) && guard(order, snapshot)
            == Wash::Refused(reason) ==> submit_plan(order, snapshot, limits, calendar, now)
            == Some(Plan::Deny("wash-guard: "@ + reason)),
{
}

/// A simple order with a side that the validator accepts can always be written on the wire.
pub proof fn valid_simple_orders_are_sendable(order: OrderView, session: Session)
    requires
        order.side != OrderSide::NoOrderSide,
        !shape_of(order).is_complex,
        judgement(shape_of(order), session) is Valid,
    ensures
        sendable(order),
        send_plan(order, judgement(shape_of(order), session)->Valid_0) is Send,
{
}

/// The extended-hours flag goes out only with limit orders in an extended session, or with held
/// limit orders that wait for the pre-market open.
pub proof fn extended_hours_only_for_limit_orders<C: MarketCalendar>(
    order: OrderView,
    calendar: C,
    now: u64,
)
    ensures
        validated_plan(order, calendar, now) matches Plan::Send(request) ==> (
        request.extended_hours == Some(true) <==> calendar.session(now).extended()),
        validated_plan(order, calendar, now) matches Plan::Hold(request, release) ==> (
        request.extended_hours == Some(true) <==> released_premarket(shape_of(order))),
        validated_plan(order, calendar, now) matches Plan::Send(request) ==> (
        request.extended_hours == Some(true) ==> order.order_type == OrderType::Limit),
{
}

/// A trailing offset is sent as a percentage or as a price, never both, and a trailing order never
/// carries a stop price.
pub proof fn trailing_orders_carry_one_offset(order: OrderView, extended_hours: bool)
    ensures
        request_of(order, extended_hours).trail_percent is None || request_of(
            order,
            extended_hours,
        ).trail_price is None,
        is_trailing(order.order_type) ==> request_of(order, extended_hours).stop_price is None,
        order.trailing_offset is None ==> request_of(order, extended_hours).trail_percent is None
            && request_of(order, extended_hours).trail_price is None,
{
}

/// A bracket that is sent or held has both of its legs, and is never sent for extended hours; it is
/// sent only in regular hours.
pub proof fn brackets_keep_both_legs<C: MarketCalendar>(
    entry: OrderView,
    tp: Option<Seq<char>>,
    sl: Option<Seq<char>>,
    snapshot: Snapshot,
    limits: GatekeeperLimits,
    calendar: C,
    now: u64,
)
    ensures
        bracket_plan(entry, tp, sl, snapshot, limits, calendar, now) matches Some(
            Plan::Send(request),
        ) ==> {
            &&& request.take_profit == tp && tp is Some
            &&& sl matches Some(px) && request.stop_loss == Some((px, None::<Seq<char>>))
            &&& request.order_class == Some("bracket"@)
            &&& request.extended_hours is None
            &&& calendar.session(now) == Session::Regular
        },
        bracket_plan(entry, tp, sl, snapshot, limits, calendar, now) matches Some(
            Plan::Hold(request, release),
        ) ==> {
            &&& request.take_profit == tp && tp is Some
            &&& sl matches Some(px) && request.stop_loss == Some((px, None::<Seq<char>>))
            &&& request.extended_hours is None
            &&& release == calendar.regular_open(now)
        },
{
}

/// A bracket with both legs that the gatekeeper allows is sent in regular hours, where its prices
/// are accepted and it is for the day or good till canceled. Outside regular hours it is held until
/// the next regular open where it carries the tag, else rejected.
pub proof fn unobjectionable_brackets_are_sent<C: MarketCalendar>(
    entry: OrderView,
    tp: Seq<char>,
    sl: Seq<char>,
    snapshot: Snapshot,
    limits: GatekeeperLimits,
    calendar: C,
    now: u64,
    k: int,
)
    requires
        gate(entry, snapshot, limits) == Some(Verdict::Allow),
        sendable(entry),
        structure_problem(bracket_shape(entry)) is None,
    ensures
        calendar.session(now) == Session::Regular ==> bracket_plan(
            entry,
            Some(tp),
            Some(sl),
            snapshot,
            limits,
            calendar,
            now,
        ) == Some(Plan::Send(bracket_of(entry, tp, sl))),
        calendar.session(now) != Session::Regular && 0 <= k < entry.tags@.len() && entry.tags@[k]@
            == "queue_for_open"@ ==> bracket_plan(
            entry,
            Some(tp),
            Some(sl),
            snapshot,
            limits,
            calendar,
            now,
        ) == Some(Plan::Hold(bracket_of(entry, tp, sl), calendar.regular_open(now))),
        calendar.session(now) != Session::Regular && entry.tags@.len() == 0 ==> (bracket_plan(
            entry,
            Some(tp),
            Some(sl),
            snapshot,
            limits,
            calendar,
            now,
        ) matches Some(Plan::Reject(_))),
        bracket_plan(entry, None, Some(sl), snapshot, limits, calendar, now) matches Some(
            Plan::Deny(_),
        ),
        bracket_plan(entry, Some(tp), None, snapshot, limits, calendar, now) matches Some(
            Plan::Deny(_),
        ),
{
}

/// A held order whose release has come is sent where the validator accepts it then, with the flag
/// of that session, and else rejected; it is never held again.
pub proof fn released_orders_are_sent_or_rejected<C: MarketCalendar>(
    order: OrderView,
    calendar: C,
    now: u64,
    flag: bool,
)
    requires
        sendable(order),
    ensures
        judgement(shape_of(order), calendar.session(now)) == Judgement::Valid(flag) ==> release_plan(
            order,
            calendar,
            now,
        ) == Plan::Send(request_of(order, flag)),
        judgement(shape_of(order), calendar.session(now)) !is Valid ==> release_plan(
            order,
            calendar,
            now,
        ) is Reject,
{
}

/// What is said of an action is what it holds.
pub proof fn actions_are_their_parts(action: SubmitAction, list: ListAction)
    ensures
        action is Ignore <==> action@ is Ignore,
        action is Drop <==> action@ is Drop,
        action matches SubmitAction::Deny(reason) ==> action@ == Plan::Deny(reason@),
        action matches SubmitAction::Reject(reason) ==> action@ == Plan::Reject(reason@),
        action matches SubmitAction::Hold { request, release } ==> action@ == Plan::Hold(
            request@,
            release as int,
        ),
        action matches SubmitAction::Send(request) ==> action@ == Plan::Send(request@),
        list is NoEntry <==> list@ is NoEntry,
        list matches ListAction::Deny { entry, reason } ==> list@ == ListPlan::Entry(
            entry as int,
            Plan::Deny(reason@),
        ),
        list matches ListAction::Reject { entry, reason } ==> list@ == ListPlan::Entry(
            entry as int,
            Plan::Reject(reason@),
        ),
        list matches ListAction::Hold { entry, request, release } ==> list@ == ListPlan::Entry(
            entry as int,
            Plan::Hold(request@, release as int),
        ),
        list matches ListAction::Send { entry, request } ==> list@ == ListPlan::Entry(
            entry as int,
            Plan::Send(request@),
        ),
{
}

/// The reason of a refused request begins with the request that was refused.
pub proof fn refusals_name_the_request(kind: RequestKind)
    ensures
        kind == RequestKind::Submit ==> kind.prefix() == "submit-order-rejected: "@,
        kind == RequestKind::SubmitBracket ==> kind.prefix() == "submit-bracket-rejected: "@,
        kind == RequestKind::QueuedSubmit ==> kind.prefix() == "queued-submit-rejected: "@,
        kind == RequestKind::QueuedBracket ==> kind.prefix() == "queued-bracket-rejected: "@,
        kind == RequestKind::Cancel ==> kind.prefix() == "cancel-order-rejected: "@,
        kind == RequestKind::Modify ==> kind.prefix() == "modify-order-rejected: "@,
{
}

/// The gatekeeper judges the order that is submitted, by its own side, type, quantity and price,
/// for the account that the snapshot shows; the wash-trade guard judges it against what is held of
/// its symbol and every other open order.
pub proof fn orders_are_judged_as_they_are(
    order: OrderView,
    snapshot: Snapshot,
    limits: GatekeeperLimits,
    info: OrderInfo,
    account: AccountInfo,
    net: Dec,
)
    requires
        info.side == order.side,
        info.order_type == order.order_type,
        info.quantity == order.quantity,
        info.limit_price == order.price,
        info.reference_price == match snapshot.quote {
            Some(q) => if q.bid.units() > 0 && q.ask.units() > 0 {
                Some(q.mid)
            } else {
                snapshot.last_trade
            },
            None => snapshot.last_trade,
        },
        account.equity == snapshot.equity,
        net_of(snapshot.positions@, order.symbol@, snapshot.positions@.len() as int) == Some(
            account.symbol_net_qty,
        ),
        average_of(snapshot.positions@, order.symbol@) == Some(account.symbol_avg_px),
        gross_of(snapshot.positions@, snapshot.positions@.len() as int) == Some(
            account.total_gross_exposure,
        ),
        net == if order.venue@ == "ALPACA"@ {
            account.symbol_net_qty
        } else {
            Dec::nought()
        },
    ensures
        gate(order, snapshot, limits) == verdict(info, account, limits),
        guard(order, snapshot) == wash(
            pending_of(order),
            net,
            others_of(
                snapshot.open_orders@,
                order.client_order_id@,
                snapshot.open_orders@.len() as int,
            ),
        ),
{
}

} // verus!
