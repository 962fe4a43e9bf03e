//! The wire texts of the broker: those that orders are sent with, and what is read from answers.

use vstd::arithmetic::power::lemma_pow_positive;
use vstd::prelude::*;

use crate::alpaca::http::error::Error;
use crate::alpaca::http::models::{AlpacaAccount, AlpacaOrder, AlpacaPosition};
use crate::decimal::{
    aligned, aligned_absolute, aligned_keeps_sign, below, below_at, common_places, dec_parts,
    decimal_difference, decimal_of_text, difference_in_range, difference_value, magnitude, ten_to,
    whole, Dec, MAX_PLACES,
};
use crate::fixed::{
    fixed_differences_add_up, fixed_keeps_sign, fixed_raw, is_register_error, money_from, money_raw,
    quantity_from, quantity_raw, registered_currency, Fixed, KnownCurrency, FIXED_PLACES,
};
use crate::model::{OrderSide, OrderStatus, OrderType, PositionSide, TimeInForce};
use crate::text::{copy_text, same_text, text_view, trim, trimmed};

verus! {

/// The wire text of an order side.
pub open spec fn side_wire(side: OrderSide) -> Option<Seq<char>> {
    match side {
        OrderSide::Buy => Some("buy"@),
        OrderSide::Sell => Some("sell"@),
        OrderSide::NoOrderSide => None,
    }
}

/// The wire text of an order type. Market-to-limit orders are sent as market orders, and both
/// kinds of trailing stop have one type.
pub open spec fn type_wire(order_type: OrderType) -> Option<Seq<char>> {
    match order_type {
        OrderType::Market => Some("market"@),
        OrderType::Limit => Some("limit"@),
        OrderType::StopMarket => Some("stop"@),
        OrderType::StopLimit => Some("stop_limit"@),
        OrderType::TrailingStopMarket => Some("trailing_stop"@),
        OrderType::TrailingStopLimit => Some("trailing_stop"@),
        OrderType::MarketToLimit => Some("market"@),
        OrderType::MarketIfTouched => None,
        OrderType::LimitIfTouched => None,
    }
}

/// The wire text of a time in force.
pub open spec fn tif_wire(tif: TimeInForce) -> Option<Seq<char>> {
    match tif {
        TimeInForce::Day => Some("day"@),
        TimeInForce::Gtc => Some("gtc"@),
        _ => None,
    }
}

/// What is said of an order without a side.
pub open spec fn side_error() -> Seq<char> {
    "order side must be Buy or Sell"@
}

/// What is said of an order type that the broker does not know.
pub open spec fn type_error(order_type: OrderType) -> Seq<char> {
    "unsupported order type for Alpaca: "@ + order_type.named()
}

/// What is said of a time in force that the broker does not take.
pub open spec fn tif_error(tif: TimeInForce) -> Seq<char> {
    "unsupported time-in-force for Alpaca: "@ + tif.named()
}

/// Whether `r` is the text `wire`, or where there is none a parse error with the text `error`.
pub open spec fn is_wire(
    r: Result<&'static str, Error>,
    wire: Option<Seq<char>>,
    error: Seq<char>,
) -> bool {
    match (r, wire) {
        (Ok(text), Some(w)) => text@ == w,
        (Err(Error::Parse(e)), None) => e@ == error,
        _ => false,
    }
}

/// The wire text of an order side; an order without a side is an error.
pub fn order_side_to_alpaca(side: OrderSide) -> (r: Result<&'static str, Error>)
    ensures
        is_wire(r, side_wire(side), side_error()),
{
    match side {
        OrderSide::Buy => Ok("buy"),
        OrderSide::Sell => Ok("sell"),
        OrderSide::NoOrderSide => Err(Error::Parse("order side must be Buy or Sell".to_owned())),
    }
}

/// The wire text of an order type; the if-touched types are an error.
pub fn order_type_to_alpaca(order_type: OrderType) -> (r: Result<&'static str, Error>)
    ensures
        is_wire(r, type_wire(order_type), type_error(order_type)),
{
    match order_type {
        OrderType::Market => Ok("market"),
        OrderType::Limit => Ok("limit"),
        OrderType::StopMarket => Ok("stop"),
        OrderType::StopLimit => Ok("stop_limit"),
        OrderType::TrailingStopMarket | OrderType::TrailingStopLimit => Ok("trailing_stop"),
        OrderType::MarketToLimit => Ok("market"),
        other => Err(
            Error::Parse(
                "unsupported order type for Alpaca: ".to_owned().concat(other.name()),
            ),
        ),
    }
}

/// The wire text of a time in force; only day and good-till-canceled have one.
pub fn time_in_force_to_alpaca(tif: TimeInForce) -> (r: Result<&'static str, Error>)
    ensures
        is_wire(r, tif_wire(tif), tif_error(tif)),
{
    match tif {
        TimeInForce::Day => Ok("day"),
        TimeInForce::Gtc => Ok("gtc"),
        other => Err(
            Error::Parse("unsupported time-in-force for Alpaca: ".to_owned().concat(other.name())),
        ),
    }
}

// ----- the account -----

/// What is said of an account field that is not a number.
pub open spec fn field_error(field: Seq<char>, raw: Seq<char>, error: Seq<char>) -> Seq<char> {
    "account field '"@ + field + "'='"@ + raw + "': "@ + error
}

/// The number in an account field, white space around it left out of account.
pub open spec fn field_number(field: Seq<char>, raw: Seq<char>) -> Result<Dec, Seq<char>> {
    match decimal_of_text(trimmed(raw)) {
        Ok(d) => Ok(d),
        Err(e) => Err(field_error(field, raw, e)),
    }
}

/// The number in an account field.
pub fn parse_decimal(field: &str, raw: &str) -> (r: Result<Dec, Error>)
    ensures
        match (r, field_number(field@, raw@)) {
            (Ok(a), Ok(b)) => a == b && a.valid(),
            (Err(Error::Parse(a)), Err(b)) => a@ == b,
            _ => false,
        },
{
    match Dec::try_parse(trim(raw).as_str()) {
        Ok(d) => Ok(d),
        Err(e) => Err(
            Error::Parse(
                "account field '".to_owned().concat(field).concat("'='").concat(raw).concat(
                    "': ",
                ).concat(e.as_str()),
            ),
        ),
    }
}

/// The balance of a cash account.
#[derive(Clone, Copy, Debug, PartialEq, Eq, Structural)]
pub struct Balance {
    /// The account's equity.
    pub total: Fixed,
    /// The part of equity that is not cash; never negative.
    pub locked: Fixed,
    /// The account's cash.
    pub free: Fixed,
}

/// The amount of equity that is not cash, or zero where there is more cash than equity.
pub open spec fn locked_part(equity: Dec, cash: Dec) -> Dec {
    match decimal_difference(equity, cash) {
        Some(d) => if d.units() < 0 {
            Dec::nought()
        } else {
            d
        },
        None => Dec::nought(),
    }
}

/// The error of an amount of money.
pub open spec fn money_error(what: Seq<char>, error: Seq<char>) -> Seq<char> {
    what + " money: "@ + error
}

/// The balance of an account in a currency of this precision: total is equity, free is cash and
/// locked is the rest. The first field that is wrong gives the error.
pub open spec fn balance_of(account: AlpacaAccount, precision: u8) -> Result<Balance, Seq<char>> {
    match (
        field_number("equity"@, account.equity@),
        field_number("cash"@, account.cash@),
    ) {
        (Err(e), _) => Err(e),
        (_, Err(e)) => Err(e),
        (Ok(equity), Ok(cash)) => match (
            money_raw(equity, precision),
            money_raw(cash, precision),
            money_raw(locked_part(equity, cash), precision),
        ) {
            (Err(e), _, _) => Err(money_error("equity"@, e)),
            (_, Err(e), _) => Err(money_error("cash"@, e)),
            (_, _, Err(e)) => Err(money_error("locked"@, e)),
            (Ok(total), Ok(free), Ok(locked)) => Ok(
                Balance {
                    total: Fixed { raw: total, precision },
                    locked: Fixed { raw: locked, precision },
                    free: Fixed { raw: free, precision },
                },
            ),
        },
    }
}

/// Whether `r` is the balance, or a parse error with the text, that `named` stands for.
pub open spec fn is_balance(
    r: Result<Balance, Error>,
    named: Result<Balance, Seq<char>>,
) -> bool {
    match (r, named) {
        (Ok(a), Ok(b)) => a == b,
        (Err(Error::Parse(a)), Err(b)) => a@ == b,
        _ => false,
    }
}

/// The amount nearest to `d`, or the error of the amount `what`.
fn amount(what: &str, d: Dec, precision: u8) -> (r: Result<Fixed, Error>)
    ensures
        r is Ok ==> precision <= FIXED_PLACES,
        match (r, money_raw(d, precision)) {
            (Ok(a), Ok(raw)) => a == (Fixed { raw, precision }) && raw == fixed_raw(d, precision)
                && whole(d) < 18_000_000_000_000,
            (Err(Error::Parse(a)), Err(b)) => a@ == money_error(what@, b),
            _ => false,
        },
{
    match money_from(d, precision) {
        Ok(m) => Ok(m),
        Err(e) => Err(Error::Parse(what.to_owned().concat(" money: ").concat(e.as_str()))),
    }
}

/// Whether an account's equity and cash need no rounding, their difference is exact, and equity is
/// not less than cash. Then what is locked and what is free add up to the total.
pub open spec fn adds_up(account: AlpacaAccount, precision: u8) -> bool {
    match (
        field_number("equity"@, account.equity@),
        field_number("cash"@, account.cash@),
    ) {
        (Ok(equity), Ok(cash)) => {
            &&& common_places(equity, cash) <= precision
            &&& !below(equity, cash)
            &&& difference_in_range(equity, cash) is Some
        },
        _ => false,
    }
}

/// The balance of an account in a currency of this precision; one of more places than amounts have
/// is an error.
pub fn account_balance(account: &AlpacaAccount, precision: u8) -> (r: Result<Balance, Error>)
    ensures
        is_balance(r, balance_of(*account, precision)),
        r is Ok ==> precision <= FIXED_PLACES,
        r matches Ok(b) ==> b.locked.raw >= 0,
        r matches Ok(b) ==> (adds_up(*account, precision) ==> b.total.raw == b.locked.raw
            + b.free.raw),
{
    let equity = match parse_decimal("equity", account.equity.as_str()) {
        Ok(d) => d,
        Err(e) => return Err(e),
    };
    let cash = match parse_decimal("cash", account.cash.as_str()) {
        Ok(d) => d,
        Err(e) => return Err(e),
    };
    let total = match amount("equity", equity, precision) {
        Ok(m) => m,
        Err(e) => return Err(e),
    };
    let free = match amount("cash", cash, precision) {
        Ok(m) => m,
        Err(e) => return Err(e),
    };
    // Both amounts are in range, so that their difference is.
    let rest = equity.checked_sub(cash).unwrap();
    let locked_dec = if rest.is_negative() {
        Dec::zero()
    } else {
        rest
    };
    proof {
        broadcast use dec_parts;

        if locked_dec.units() >= 0 {
            fixed_keeps_sign(locked_dec, precision);
        }
        if adds_up(*account, precision) {
            fixed_differences_add_up(equity, cash, rest, precision);
            difference_value(equity, cash, rest, common_places(equity, cash));
            below_at(equity, cash, common_places(equity, cash));
            if rest.units() < 0 {
                lemma_pow_positive(10, (common_places(equity, cash) - rest.places()) as nat);
                let t = ten_to((common_places(equity, cash) - rest.places()) as nat);
                let u = rest.units();
                assert(u < 0 && t > 0 ==> u * t < 0) by (nonlinear_arith);
            }
        }
    }
    let locked = match amount("locked", locked_dec, precision) {
        Ok(m) => m,
        Err(e) => return Err(e),
    };
    Ok(Balance { total, locked, free })
}

/// What is said of a currency that is not known.
pub open spec fn currency_error(code: Seq<char>, error: Seq<char>) -> Seq<char> {
    "unknown account currency '"@ + code + "': "@ + error
}

/// The state of a cash account.
#[derive(Clone, Debug, PartialEq, Eq)]
pub struct AccountRecord {
    /// The account's one balance.
    pub balance: Balance,
    /// The account's currency.
    pub currency: KnownCurrency,
    /// Whether the broker reported the state.
    pub is_reported: bool,
    /// When the state was in effect, in nanoseconds of Unix time.
    pub ts_event: u64,
    /// When the state was read, in nanoseconds of Unix time.
    pub ts_init: u64,
}

/// The state of an account in its own currency, or a parse error. The register of currencies is
/// asked for the account's currency, white space around it left out of account, and decides whether
/// it is known and what its precision is; [`account_balance`] says what follows for each precision.
pub fn parse_account_state(
    account: &AlpacaAccount,
    is_reported: bool,
    ts_event: u64,
    ts_init: u64,
) -> (r: Result<AccountRecord, Error>)
    ensures
        r matches Ok(state) ==> {
            &&& state.currency.asked() == trimmed(account.currency@)
            &&& state.currency.places() <= FIXED_PLACES
            &&& balance_of(*account, state.currency.places()) == Ok::<Balance, Seq<char>>(
                state.balance,
            )
            &&& state.is_reported == is_reported
            &&& state.ts_event == ts_event
            &&& state.ts_init == ts_init
        },
        r matches Err(e) ==> (exists|precision: u8|
            is_balance(Err(e), #[trigger] balance_of(*account, precision))) || (exists|error: Seq<char>|
            is_register_error(error, trimmed(account.currency@)) && (e matches Error::Parse(text)
                && text@ == #[trigger] currency_error(account.currency@, error))),
{
    match registered_currency(trim(account.currency.as_str()).as_str()) {
        Ok(currency) => match account_balance(account, currency.precision()) {
            Ok(balance) => Ok(AccountRecord { balance, currency, is_reported, ts_event, ts_init }),
            Err(e) => {
                assert(is_balance(Err(e), balance_of(*account, currency.places())));
                Err(e)
            },
        },
        Err(e) => {
            let r = Error::Parse(
                "unknown account currency '".to_owned().concat(account.currency.as_str()).concat(
                    "': ",
                ).concat(e.as_str()),
            );
            assert(r->Parse_0@ == currency_error(account.currency@, e@));
            Err(r)
        },
    }
}

// ----- orders and positions -----

/// The order status that a wire text stands for; a text that is not known stands for an accepted
/// order.
pub open spec fn status_of(status: Seq<char>) -> OrderStatus {
    if status == "partially_filled"@ {
        OrderStatus::PartiallyFilled
    } else if status == "filled"@ {
        OrderStatus::Filled
    } else if status == "canceled"@ || status == "cancelled"@ || status == "pending_cancel"@ {
        OrderStatus::Canceled
    } else if status == "expired"@ || status == "done_for_day"@ {
        OrderStatus::Expired
    } else if status == "rejected"@ || status == "suspended"@ {
        OrderStatus::Rejected
    } else if status == "replaced"@ || status == "pending_replace"@ {
        OrderStatus::PendingUpdate
    } else {
        OrderStatus::Accepted
    }
}

/// The order status that a wire text stands for.
pub fn order_status_from_alpaca(status: &str) -> (r: OrderStatus)
    ensures
        r == status_of(status@),
{
    if same_text(status, "partially_filled") {
        OrderStatus::PartiallyFilled
    } else if same_text(status, "filled") {
        OrderStatus::Filled
    } else if same_text(status, "canceled") || same_text(status, "cancelled") || same_text(
        status,
        "pending_cancel",
    ) {
        OrderStatus::Canceled
    } else if same_text(status, "expired") || same_text(status, "done_for_day") {
        OrderStatus::Expired
    } else if same_text(status, "rejected") || same_text(status, "suspended") {
        OrderStatus::Rejected
    } else if same_text(status, "replaced") || same_text(status, "pending_replace") {
        OrderStatus::PendingUpdate
    } else {
        OrderStatus::Accepted
    }
}

/// The side that a wire text stands for: a sale for "sell", else a purchase.
pub open spec fn side_of(side: Option<Seq<char>>) -> OrderSide {
    if side == Some("sell"@) {
        OrderSide::Sell
    } else {
        OrderSide::Buy
    }
}

/// The side that a wire text stands for.
pub fn side_from_alpaca(side: &Option<String>) -> (r: OrderSide)
    ensures
        r == side_of(text_view(*side)),
{
    match side {
        Some(s) => if same_text(s.as_str(), "sell") {
            OrderSide::Sell
        } else {
            OrderSide::Buy
        },
        None => OrderSide::Buy,
    }
}

/// The report of an order at the broker.
#[derive(Clone, Debug)]
pub struct OrderReport {
    pub symbol: String,
    pub client_order_id: Option<String>,
    pub venue_order_id: String,
    pub side: OrderSide,
    pub order_type: OrderType,
    pub time_in_force: TimeInForce,
    pub status: OrderStatus,
    pub quantity: Fixed,
    pub filled_qty: Fixed,
    /// When the order was accepted, last changed and reported, in nanoseconds of Unix time.
    pub ts: u64,
}

/// The quantity filled so far: zero where it is absent or not a number.
pub open spec fn filled_of(order: AlpacaOrder) -> Dec {
    match order.filled_qty {
        Some(s) => match decimal_of_text(trimmed(s@)) {
            Ok(d) => d,
            Err(_) => Dec::nought(),
        },
        None => Dec::nought(),
    }
}

/// The status text of an order; "accepted" where it is absent.
pub open spec fn status_text(order: AlpacaOrder) -> Seq<char> {
    match order.status {
        Some(s) => s@,
        None => "accepted"@,
    }
}

/// The number, or one where it is less.
pub open spec fn at_least_one(d: Dec) -> Dec {
    if below(d, Dec::of(1, 0)) {
        Dec::of(1, 0)
    } else {
        d
    }
}

/// Whether an order can be reported: it has a symbol, and its quantities are in range.
pub open spec fn reportable(order: AlpacaOrder) -> bool {
    &&& order.symbol is Some
    &&& quantity_raw(at_least_one(filled_of(order)), 0) is Some
    &&& quantity_raw(filled_of(order), 0) is Some
}

/// Whether `r` is the report of `order`: what the wire says, with the type, the time in force and
/// the quantity that it does not say filled in.
pub open spec fn reports_order(r: OrderReport, order: AlpacaOrder, ts: u64) -> bool {
    &&& reportable(order)
    &&& Some(r.symbol@) == text_view(order.symbol)
    &&& text_view(r.client_order_id) == text_view(order.client_order_id)
    &&& r.venue_order_id@ == order.id@
    &&& r.side == side_of(text_view(order.side))
    &&& r.order_type == OrderType::Limit
    &&& r.time_in_force == TimeInForce::Gtc
    &&& r.status == status_of(status_text(order))
    &&& Some(r.quantity.raw) == quantity_raw(at_least_one(filled_of(order)), 0)
    &&& Some(r.filled_qty.raw) == quantity_raw(filled_of(order), 0)
    &&& r.quantity.precision == 0
    &&& r.filled_qty.precision == 0
    &&& r.ts == ts
}

/// The report of an order; `None` for one without a symbol or with a quantity out of range.
pub fn parse_order_status_report(order: &AlpacaOrder, ts: u64) -> (r: Option<OrderReport>)
    ensures
        r is Some <==> reportable(*order),
        r matches Some(report) ==> reports_order(report, *order, ts),
{
    let symbol = match &order.symbol {
        Some(s) => s.clone(),
        None => return None,
    };
    let filled = match &order.filled_qty {
        Some(s) => match Dec::parse(trim(s.as_str()).as_str()) {
            Some(d) => d,
            None => Dec::zero(),
        },
        None => Dec::zero(),
    };
    let status = match &order.status {
        Some(s) => order_status_from_alpaca(s.as_str()),
        None => order_status_from_alpaca("accepted"),
    };
    let one = Dec::new(1, 0).unwrap();
    let least = if filled.less_than(one) {
        one
    } else {
        filled
    };
    let quantity = match quantity_from(least, 0) {
        Some(q) => q,
        None => return None,
    };
    let filled_qty = match quantity_from(filled, 0) {
        Some(q) => q,
        None => return None,
    };
    Some(
        OrderReport {
            symbol,
            client_order_id: copy_text(&order.client_order_id),
            venue_order_id: order.id.clone(),
            side: side_from_alpaca(&order.side),
            order_type: OrderType::Limit,
            time_in_force: TimeInForce::Gtc,
            status,
            quantity,
            filled_qty,
            ts,
        },
    )
}

/// The report of a position at the broker.
#[derive(Clone, Debug)]
pub struct PositionReport {
    pub symbol: String,
    pub side: PositionSide,
    pub quantity: Fixed,
    /// The average entry price, if it is a number.
    pub avg_px: Option<Dec>,
    /// When the position was reported, in nanoseconds of Unix time.
    pub ts: u64,
}

/// The magnitude of a position's quantity, if it is a number.
pub open spec fn position_size(position: AlpacaPosition) -> Option<Dec> {
    match decimal_of_text(trimmed(position.qty@)) {
        Ok(d) => Some(d.absolute()),
        Err(_) => None,
    }
}

/// Whether a position can be reported: its quantity is a number in range.
pub open spec fn position_reportable(position: AlpacaPosition) -> bool {
    position_size(position) matches Some(size) && quantity_raw(size, 0) is Some
}

/// Whether `r` is the report of `position`.
pub open spec fn reports_position(r: PositionReport, position: AlpacaPosition, ts: u64) -> bool {
    &&& position_reportable(position)
    &&& r.symbol@ == position.symbol@
    &&& r.side == if position.side@ == "short"@ {
        PositionSide::Short
    } else {
        PositionSide::Long
    }
    &&& Some(r.quantity.raw) == quantity_raw(position_size(position)->0, 0)
    &&& r.quantity.precision == 0
    &&& r.avg_px == decimal_of_text(trimmed(position.avg_entry_price@)).ok()
    &&& r.ts == ts
}

/// The report of a position; `None` where its quantity is not a number in range.
pub fn parse_position_status_report(position: &AlpacaPosition, ts: u64) -> (r: Option<
    PositionReport,
>)
    ensures
        r is Some <==> position_reportable(*position),
        r matches Some(report) ==> reports_position(report, *position, ts),
{
    let size = match Dec::parse(trim(position.qty.as_str()).as_str()) {
        Some(d) => d.abs(),
        None => return None,
    };
    let quantity = match quantity_from(size, 0) {
        Some(q) => q,
        None => return None,
    };
    let side = if same_text(position.side.as_str(), "short") {
        PositionSide::Short
    } else {
        PositionSide::Long
    };
    Some(
        PositionReport {
            symbol: position.symbol.clone(),
            side,
            quantity,
            avg_px: Dec::parse(trim(position.avg_entry_price.as_str()).as_str()),
            ts,
        },
    )
}

// ----- laws -----

/// The balance of an account: the total is its equity, what is free is its cash, and what is locked
/// is the part of equity that is not cash, nothing where there is more cash than equity. Each is
/// rounded to the currency's precision.
pub proof fn balances_are_their_fields(
    account: AlpacaAccount,
    precision: u8,
    equity: Dec,
    cash: Dec,
    rest: Dec,
    total: i128,
    free: i128,
    locked: i128,
    none: i128,
)
    requires
        equity.valid(),
        cash.valid(),
        decimal_of_text(trimmed(account.equity@)) == Ok::<Dec, Seq<char>>(equity),
        decimal_of_text(trimmed(account.cash@)) == Ok::<Dec, Seq<char>>(cash),
        difference_in_range(equity, cash) == Some(rest),
        decimal_difference(equity, cash) == Some(rest),
        money_raw(equity, precision) == Ok::<i128, Seq<char>>(total),
        money_raw(cash, precision) == Ok::<i128, Seq<char>>(free),
        money_raw(rest, precision) == Ok::<i128, Seq<char>>(locked),
        money_raw(Dec::nought(), precision) == Ok::<i128, Seq<char>>(none),
    ensures
        balance_of(account, precision) matches Ok(balance) && {
            &&& balance.total == (Fixed { raw: total, precision })
            &&& balance.free == (Fixed { raw: free, precision })
            &&& balance.locked.precision == precision
            &&& aligned(cash, MAX_PLACES as nat) <= aligned(equity, MAX_PLACES as nat)
                ==> balance.locked.raw == locked
            &&& aligned(cash, MAX_PLACES as nat) > aligned(equity, MAX_PLACES as nat)
                ==> balance.locked.raw == none
        },
        aligned(rest, MAX_PLACES as nat) == aligned(equity, MAX_PLACES as nat) - aligned(
            cash,
            MAX_PLACES as nat,
        ),
{
    difference_value(equity, cash, rest, MAX_PLACES as nat);
    aligned_keeps_sign(rest, MAX_PLACES as nat);
}

/// A field of an account that is no number is an error, and so is the balance.
pub proof fn fields_have_to_be_numbers(account: AlpacaAccount, precision: u8)
    requires
        decimal_of_text(trimmed(account.equity@)) is Err || decimal_of_text(
            trimmed(account.cash@),
        ) is Err,
    ensures
        balance_of(account, precision) is Err,
{
}

/// The words for the status of an order: those of a partial fill, a fill, a cancel, an expiry, a
/// rejection and a replacement stand for that; every other word stands for an accepted order.
pub proof fn status_words(status: Seq<char>)
    ensures
        status_of(status) == OrderStatus::PartiallyFilled <==> status == "partially_filled"@,
        status_of(status) == OrderStatus::Filled <==> status == "filled"@,
        status_of(status) == OrderStatus::Canceled <==> status == "canceled"@ || status
            == "cancelled"@ || status == "pending_cancel"@,
        status_of(status) == OrderStatus::Expired <==> status == "expired"@ || status
            == "done_for_day"@,
        status_of(status) == OrderStatus::Rejected <==> status == "rejected"@ || status
            == "suspended"@,
        status_of(status) == OrderStatus::PendingUpdate <==> status == "replaced"@ || status
            == "pending_replace"@,
        status != "partially_filled"@ && status != "filled"@ && status != "canceled"@ && status
            != "cancelled"@ && status != "pending_cancel"@ && status != "expired"@ && status
            != "done_for_day"@ && status != "rejected"@ && status != "suspended"@ && status
            != "replaced"@ && status != "pending_replace"@ ==> status_of(status)
            == OrderStatus::Accepted,
{
    reveal_strlit("partially_filled");
    reveal_strlit("filled");
    reveal_strlit("canceled");
    reveal_strlit("cancelled");
    reveal_strlit("pending_cancel");
    reveal_strlit("expired");
    reveal_strlit("done_for_day");
    reveal_strlit("rejected");
    reveal_strlit("suspended");
    reveal_strlit("replaced");
    reveal_strlit("pending_replace");
    assert("partially_filled"@.len() == 16 && "filled"@.len() == 6 && "canceled"@.len() == 8
        && "cancelled"@.len() == 9 && "pending_cancel"@.len() == 14 && "expired"@.len() == 7
        && "done_for_day"@.len() == 12 && "rejected"@.len() == 8 && "suspended"@.len() == 9
        && "replaced"@.len() == 8 && "pending_replace"@.len() == 15);
    assert("canceled"@[0] == 'c' && "rejected"@[2] == 'j' && "replaced"@[2] == 'p'
        && "canceled"@[2] == 'n');
    assert("cancelled"@[0] == 'c' && "suspended"@[0] == 's');
}

/// The report of an order says what the broker says of it, each in its own field: its symbol, both
/// ids, a sale for "sell" and else a purchase, its status, and the quantity that is filled; the
/// quantity of the order, which the broker does not say, is what is filled but at least one share.
pub proof fn order_reports_are_their_fields(r: OrderReport, order: AlpacaOrder, ts: u64, filled: Dec)
    requires
        reports_order(r, order, ts),
        filled.valid(),
        order.filled_qty matches Some(text) ==> decimal_of_text(trimmed(text@)) == Ok::<
            Dec,
            Seq<char>,
        >(filled),
        order.filled_qty is None ==> filled == Dec::nought(),
    ensures
        order.symbol matches Some(symbol) && r.symbol@ == symbol@,
        r.venue_order_id@ == order.id@,
        r.client_order_id is Some <==> order.client_order_id is Some,
        order.client_order_id matches Some(id) ==> r.client_order_id->0@ == id@,
        order.side matches Some(side) ==> (side@ == "sell"@ <==> r.side == OrderSide::Sell),
        order.side is None ==> r.side == OrderSide::Buy,
        r.side == OrderSide::Buy || r.side == OrderSide::Sell,
        order.status matches Some(status) ==> r.status == status_of(status@),
        order.status is None ==> r.status == OrderStatus::Accepted,
        r.order_type == OrderType::Limit,
        r.time_in_force == TimeInForce::Gtc,
        quantity_raw(filled, 0) == Some(r.filled_qty.raw),
        aligned(filled, MAX_PLACES as nat) >= ten_to(28) ==> quantity_raw(filled, 0) == Some(
            r.quantity.raw,
        ),
        aligned(filled, MAX_PLACES as nat) < ten_to(28) ==> quantity_raw(Dec::of(1, 0), 0) == Some(
            r.quantity.raw,
        ),
        r.quantity.precision == 0,
        r.filled_qty.precision == 0,
        r.ts == ts,
{
    broadcast use dec_parts;

    below_at(filled, Dec::of(1, 0), MAX_PLACES as nat);
    assert(aligned(Dec::of(1, 0), MAX_PLACES as nat) == ten_to(28));
    accepted_is_no_other_word();
}

proof fn accepted_is_no_other_word()
    ensures
        status_of("accepted"@) == OrderStatus::Accepted,
{
    reveal_strlit("accepted");
    reveal_strlit("partially_filled");
    reveal_strlit("filled");
    reveal_strlit("canceled");
    reveal_strlit("cancelled");
    reveal_strlit("pending_cancel");
    reveal_strlit("expired");
    reveal_strlit("done_for_day");
    reveal_strlit("rejected");
    reveal_strlit("suspended");
    reveal_strlit("replaced");
    reveal_strlit("pending_replace");
    let a = "accepted"@;
    assert(a.len() == 8 && a[0] == 'a');
    assert("partially_filled"@.len() == 16 && "filled"@.len() == 6 && "cancelled"@.len() == 9
        && "pending_cancel"@.len() == 14 && "expired"@.len() == 7 && "done_for_day"@.len() == 12
        && "suspended"@.len() == 9 && "pending_replace"@.len() == 15);
    assert("canceled"@[0] == 'c' && "rejected"@[0] == 'r' && "replaced"@[0] == 'r');
}

/// The report of a position says what the broker says of it, each in its own field: short exactly
/// for "short" and else long, as many shares as its quantity is in magnitude, and its average entry
/// price.
pub proof fn position_reports_are_their_fields(
    r: PositionReport,
    position: AlpacaPosition,
    ts: u64,
    qty: Dec,
)
    requires
        reports_position(r, position, ts),
        qty.valid(),
        decimal_of_text(trimmed(position.qty@)) == Ok::<Dec, Seq<char>>(qty),
    ensures
        r.symbol@ == position.symbol@,
        r.side == PositionSide::Short <==> position.side@ == "short"@,
        r.side == PositionSide::Long <==> position.side@ != "short"@,
        exists|size: Dec|
            {
                &&& #[trigger] quantity_raw(size, 0) == Some(r.quantity.raw)
                &&& size.valid()
                &&& aligned(size, MAX_PLACES as nat) == magnitude(aligned(qty, MAX_PLACES as nat))
            },
        r.quantity.precision == 0,
        decimal_of_text(trimmed(position.avg_entry_price@)) matches Ok(px) ==> r.avg_px == Some(px),
        decimal_of_text(trimmed(position.avg_entry_price@)) is Err ==> r.avg_px is None,
        r.ts == ts,
{
    aligned_absolute(qty, MAX_PLACES as nat);
    assert(quantity_raw(qty.absolute(), 0) == Some(r.quantity.raw));
}

/// An order can be reported exactly where it has a symbol and the quantity that is filled, and the
/// one share that is reported at least, are quantities; a quantity that is no number counts as none
/// filled. A position can be reported exactly where its quantity is a number whose magnitude is a
/// quantity.
pub proof fn what_can_be_reported(
    order: AlpacaOrder,
    position: AlpacaPosition,
    filled: Dec,
    qty: Dec,
)
    requires
        order.filled_qty matches Some(text) ==> (match decimal_of_text(trimmed(text@)) {
            Ok(d) => filled == d,
            Err(_) => filled == Dec::nought(),
        }),
        order.filled_qty is None ==> filled == Dec::nought(),
    ensures
        reportable(order) <==> order.symbol is Some && quantity_raw(filled, 0) is Some && (below(
            filled,
            Dec::of(1, 0),
        ) ==> quantity_raw(Dec::of(1, 0), 0) is Some),
        decimal_of_text(trimmed(position.qty@)) == Ok::<Dec, Seq<char>>(qty) ==> (
        position_reportable(position) <==> quantity_raw(qty.absolute(), 0) is Some),
        decimal_of_text(trimmed(position.qty@)) is Err ==> !position_reportable(position),
{
}

} // verus!
