//! The trading vocabulary that both adapters share.

use vstd::prelude::*;

use crate::decimal::{decimal_text, Dec};

verus! {

/// The side of an order.
#[derive(Clone, Copy, Debug, PartialEq, Eq, Structural)]
pub enum OrderSide {
    /// No side was given.
    NoOrderSide,
    /// A purchase.
    Buy,
    /// A sale.
    Sell,
}

/// The type of an order.
#[derive(Clone, Copy, Debug, PartialEq, Eq, Structural)]
pub enum OrderType {
    Market,
    Limit,
    StopMarket,
    StopLimit,
    MarketToLimit,
    MarketIfTouched,
    LimitIfTouched,
    TrailingStopMarket,
    TrailingStopLimit,
}

/// How long an order stays in force.
#[derive(Clone, Copy, Debug, PartialEq, Eq, Structural)]
pub enum TimeInForce {
    /// Good till canceled.
    Gtc,
    /// Immediate or cancel.
    Ioc,
    /// Fill or kill.
    Fok,
    /// Good till date.
    Gtd,
    /// Good for the day.
    Day,
    /// At the opening auction.
    AtTheOpen,
    /// At the closing auction.
    AtTheClose,
}

/// Where an order stands in its life.
#[derive(Clone, Copy, Debug, PartialEq, Eq, Structural)]
pub enum OrderStatus {
    Initialized,
    Denied,
    Emulated,
    Released,
    Submitted,
    Accepted,
    Rejected,
    Canceled,
    Expired,
    Triggered,
    PendingUpdate,
    PendingCancel,
    PartiallyFilled,
    Filled,
}

/// The side of a position that is known.
#[derive(Clone, Copy, Debug, PartialEq, Eq, Structural)]
pub enum PositionSide {
    Flat,
    Long,
    Short,
}

/// How orders of a list depend on each other.
#[derive(Clone, Copy, Debug, PartialEq, Eq, Structural)]
pub enum ContingencyType {
    NoContingency,
    /// One cancels the other.
    Oco,
    /// One triggers the other.
    Oto,
    /// One updates the other.
    Ouo,
}

/// What a trailing offset is measured in.
#[derive(Clone, Copy, Debug, PartialEq, Eq, Structural)]
pub enum TrailingOffsetType {
    NoTrailingOffset,
    Price,
    BasisPoints,
    Ticks,
    PriceTier,
}

/// An amount of money in one currency.
#[derive(Clone, Debug, PartialEq, Eq)]
pub struct Money {
    /// The amount, at the currency's number of decimal places.
    pub amount: Dec,
    /// The currency's code.
    pub currency: String,
}

impl Money {
    /// The amount as text, a space, and the currency's code.
    pub open spec fn shown(self) -> Seq<char> {
        decimal_text(self.amount) + " "@ + self.currency@
    }

    /// The amount as text, a space, and the currency's code.
    pub fn text(&self) -> (r: String)
        ensures
            r@ == self.shown(),
    {
        self.amount.text().concat(" ").concat(self.currency.as_str())
    }
}

impl OrderType {
    /// The type's name.
    pub open spec fn named(self) -> Seq<char> {
        match self {
            OrderType::Market => "Market"@,
            OrderType::Limit => "Limit"@,
            OrderType::StopMarket => "StopMarket"@,
            OrderType::StopLimit => "StopLimit"@,
            OrderType::MarketToLimit => "MarketToLimit"@,
            OrderType::MarketIfTouched => "MarketIfTouched"@,
            OrderType::LimitIfTouched => "LimitIfTouched"@,
            OrderType::TrailingStopMarket => "TrailingStopMarket"@,
            OrderType::TrailingStopLimit => "TrailingStopLimit"@,
        }
    }

    /// The type's name.
    pub fn name(self) -> (r: &'static str)
        ensures
            r@ == self.named(),
    {
        match self {
            OrderType::Market => "Market",
            OrderType::Limit => "Limit",
            OrderType::StopMarket => "StopMarket",
            OrderType::StopLimit => "StopLimit",
            OrderType::MarketToLimit => "MarketToLimit",
            OrderType::MarketIfTouched => "MarketIfTouched",
            OrderType::LimitIfTouched => "LimitIfTouched",
            OrderType::TrailingStopMarket => "TrailingStopMarket",
            OrderType::TrailingStopLimit => "TrailingStopLimit",
        }
    }
}

impl TimeInForce {
    /// The name of the time in force.
    pub open spec fn named(self) -> Seq<char> {
        match self {
            TimeInForce::Gtc => "Gtc"@,
            TimeInForce::Ioc => "Ioc"@,
            TimeInForce::Fok => "Fok"@,
            TimeInForce::Gtd => "Gtd"@,
            TimeInForce::Day => "Day"@,
            TimeInForce::AtTheOpen => "AtTheOpen"@,
            TimeInForce::AtTheClose => "AtTheClose"@,
        }
    }

    /// The name of the time in force.
    pub fn name(self) -> (r: &'static str)
        ensures
            r@ == self.named(),
    {
        match self {
            TimeInForce::Gtc => "Gtc",
            TimeInForce::Ioc => "Ioc",
            TimeInForce::Fok => "Fok",
            TimeInForce::Gtd => "Gtd",
            TimeInForce::Day => "Day",
            TimeInForce::AtTheOpen => "AtTheOpen",
            TimeInForce::AtTheClose => "AtTheClose",
        }
    }
}

/// Each type of order and each time in force is named by its own word.
pub proof fn names_are_their_own(t: OrderType, tif: TimeInForce)
    ensures
        t == OrderType::Market ==> t.named() == "Market"@,
        t == OrderType::Limit ==> t.named() == "Limit"@,
        t == OrderType::StopMarket ==> t.named() == "StopMarket"@,
        t == OrderType::StopLimit ==> t.named() == "StopLimit"@,
        t == OrderType::MarketToLimit ==> t.named() == "MarketToLimit"@,
        t == OrderType::MarketIfTouched ==> t.named() == "MarketIfTouched"@,
        t == OrderType::LimitIfTouched ==> t.named() == "LimitIfTouched"@,
        t == OrderType::TrailingStopMarket ==> t.named() == "TrailingStopMarket"@,
        t == OrderType::TrailingStopLimit ==> t.named() == "TrailingStopLimit"@,
        tif == TimeInForce::Gtc ==> tif.named() == "Gtc"@,
        tif == TimeInForce::Ioc ==> tif.named() == "Ioc"@,
        tif == TimeInForce::Fok ==> tif.named() == "Fok"@,
        tif == TimeInForce::Gtd ==> tif.named() == "Gtd"@,
        tif == TimeInForce::Day ==> tif.named() == "Day"@,
        tif == TimeInForce::AtTheOpen ==> tif.named() == "AtTheOpen"@,
        tif == TimeInForce::AtTheClose ==> tif.named() == "AtTheClose"@,
{
}

/// An amount is shown as its number, a space and the code of its currency.
pub proof fn amounts_name_their_currency(m: Money)
    ensures
        m.shown() == decimal_text(m.amount) + seq![' '] + m.currency@,
{
    reveal_strlit(" ");
    assert(" "@ =~= seq![' ']);
}

} // verus!
