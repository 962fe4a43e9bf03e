//! The wire models of the broker's REST interface.

use vstd::prelude::*;

use crate::text::text_view;

verus! {

/// The account.
#[derive(Clone, Debug)]
pub struct AlpacaAccount {
    pub id: String,
    /// The code of the account's currency.
    pub currency: String,
    pub cash: String,
    /// Cash and the market value of all positions.
    pub equity: String,
    pub long_market_value: String,
    pub short_market_value: String,
    pub buying_power: String,
    pub trading_blocked: bool,
    pub account_blocked: bool,
}

/// A position.
#[derive(Clone, Debug)]
pub struct AlpacaPosition {
    pub symbol: String,
    pub qty: String,
    /// "long" or "short".
    pub side: String,
    pub avg_entry_price: String,
    pub market_value: String,
}

/// The request to create an order. What is `None` is left out.
#[derive(Clone, Debug)]
pub struct CreateOrderRequest {
    pub symbol: String,
    pub qty: String,
    /// "buy" or "sell".
    pub side: String,
    /// "market", "limit", "stop", "stop_limit" or "trailing_stop".
    pub order_type: String,
    /// "day" or "gtc".
    pub time_in_force: String,
    pub limit_price: Option<String>,
    pub stop_price: Option<String>,
    /// "bracket"; left out for a simple order.
    pub order_class: Option<String>,
    /// A trailing offset in percent.
    pub trail_percent: Option<String>,
    /// A trailing offset as a price.
    pub trail_price: Option<String>,
    pub expires_at: Option<String>,
    pub extended_hours: Option<bool>,
    pub client_order_id: Option<String>,
    pub take_profit: Option<TakeProfit>,
    pub stop_loss: Option<StopLoss>,
}

/// The take-profit leg of a bracket.
#[derive(Clone, Debug)]
pub struct TakeProfit {
    pub limit_price: String,
}

/// The stop-loss leg of a bracket.
#[derive(Clone, Debug)]
pub struct StopLoss {
    pub stop_price: String,
    /// Left out for a market exit.
    pub limit_price: Option<String>,
}

/// The request to replace an order. What is `None` stays as it is.
#[derive(Clone, Debug)]
pub struct ReplaceOrderRequest {
    pub qty: Option<String>,
    pub limit_price: Option<String>,
    pub stop_price: Option<String>,
}

/// An order as the broker sees it.
#[derive(Clone, Debug)]
pub struct AlpacaOrder {
    pub id: String,
    pub client_order_id: Option<String>,
    pub symbol: Option<String>,
    pub side: Option<String>,
    pub status: Option<String>,
    pub filled_qty: Option<String>,
    pub filled_avg_price: Option<String>,
}

/// The contents of a [`CreateOrderRequest`].
#[verifier::ext_equal]
pub struct RequestView {
    pub symbol: Seq<char>,
    pub qty: Seq<char>,
    pub side: Seq<char>,
    pub order_type: Seq<char>,
    pub time_in_force: Seq<char>,
    pub limit_price: Option<Seq<char>>,
    pub stop_price: Option<Seq<char>>,
    pub order_class: Option<Seq<char>>,
    pub trail_percent: Option<Seq<char>>,
    pub trail_price: Option<Seq<char>>,
    pub expires_at: Option<Seq<char>>,
    pub extended_hours: Option<bool>,
    pub client_order_id: Option<Seq<char>>,
    /// The limit price of the take-profit leg.
    pub take_profit: Option<Seq<char>>,
    /// The stop price of the stop-loss leg, and its limit price.
    pub stop_loss: Option<(Seq<char>, Option<Seq<char>>)>,
}

impl View for CreateOrderRequest {
    type V = RequestView;

    open spec fn view(&self) -> RequestView {
        RequestView {
            symbol: self.symbol@,
            qty: self.qty@,
            side: self.side@,
            order_type: self.order_type@,
            time_in_force: self.time_in_force@,
            limit_price: text_view(self.limit_price),
            stop_price: text_view(self.stop_price),
            order_class: text_view(self.order_class),
            trail_percent: text_view(self.trail_percent),
            trail_price: text_view(self.trail_price),
            expires_at: text_view(self.expires_at),
            extended_hours: self.extended_hours,
            client_order_id: text_view(self.client_order_id),
            take_profit: match self.take_profit {
                Some(leg) => Some(leg.limit_price@),
                None => None,
            },
            stop_loss: match self.stop_loss {
                Some(leg) => Some((leg.stop_price@, text_view(leg.limit_price))),
                None => None,
            },
        }
    }
}

impl Default for CreateOrderRequest {
    /// A request with empty texts and nothing optional.
    fn default() -> (r: CreateOrderRequest)
        ensures
            r@ == (RequestView {
                symbol: Seq::empty(),
                qty: Seq::empty(),
                side: Seq::empty(),
                order_type: Seq::empty(),
                time_in_force: Seq::empty(),
                limit_price: None,
                stop_price: None,
                order_class: None,
                trail_percent: None,
                trail_price: None,
                expires_at: None,
                extended_hours: None,
                client_order_id: None,
                take_profit: None,
                stop_loss: None,
            }),
    {
        CreateOrderRequest {
            symbol: String::new(),
            qty: String::new(),
            side: String::new(),
            order_type: String::new(),
            time_in_force: String::new(),
            limit_price: None,
            stop_price: None,
            order_class: None,
            trail_percent: None,
            trail_price: None,
            expires_at: None,
            extended_hours: None,
            client_order_id: None,
            take_profit: None,
            stop_loss: None,
        }
    }
}

impl Default for ReplaceOrderRequest {
    /// A request that changes nothing.
    fn default() -> (r: ReplaceOrderRequest)
        ensures
            r.qty is None,
            r.limit_price is None,
            r.stop_price is None,
    {
        ReplaceOrderRequest { qty: None, limit_price: None, stop_price: None }
    }
}

/// The contents of a request are its fields.
pub proof fn contents_are_the_fields(request: CreateOrderRequest)
    ensures
        request@.symbol == request.symbol@,
        request@.qty == request.qty@,
        request@.side == request.side@,
        request@.order_type == request.order_type@,
        request@.time_in_force == request.time_in_force@,
        request@.limit_price is Some <==> request.limit_price is Some,
        request.limit_price matches Some(text) ==> request@.limit_price == Some(text@),
        request@.stop_price is Some <==> request.stop_price is Some,
        request.stop_price matches Some(text) ==> request@.stop_price == Some(text@),
        request.trail_percent matches Some(text) ==> request@.trail_percent == Some(text@),
        request.trail_price matches Some(text) ==> request@.trail_price == Some(text@),
        request@.extended_hours == request.extended_hours,
        request.client_order_id matches Some(text) ==> request@.client_order_id == Some(text@),
        request.take_profit matches Some(leg) ==> request@.take_profit == Some(leg.limit_price@),
        request.stop_loss matches Some(leg) ==> (request@.stop_loss matches Some(pair) && pair.0
            == leg.stop_price@),
{
}

} // verus!
