//! The reports of open orders and positions that a reconciliation asks for.

use vstd::prelude::*;

use crate::alpaca::config::ALPACA;
use crate::alpaca::http::models::{AlpacaOrder, AlpacaPosition};
use crate::alpaca::http::parse::{
    parse_order_status_report, parse_position_status_report, position_reportable, reportable,
    reports_order, reports_position, OrderReport, PositionReport,
};
use crate::text::{same_text, text_view};

verus! {

/// The instrument that reports are asked for.
#[derive(Clone, Debug)]
pub struct Wanted {
    pub symbol: String,
    pub venue: String,
}

/// Whether something in `symbol` at this broker is asked for; without an instrument everything is.
pub open spec fn asked_for(want: Option<Wanted>, symbol: Option<Seq<char>>) -> bool {
    match want {
        None => true,
        Some(w) => w.venue@ == ALPACA@ && symbol == Some(w.symbol@),
    }
}

/// Those of the first `n` orders that are asked for and can be reported.
pub open spec fn reported_orders(orders: Seq<AlpacaOrder>, want: Option<Wanted>, n: int) -> Seq<
    AlpacaOrder,
>
    decreases n,
{
    if n <= 0 {
        Seq::empty()
    } else {
        let before = reported_orders(orders, want, n - 1);
        let order = orders[n - 1];
        if asked_for(want, text_view(order.symbol)) && reportable(order) {
            before.push(order)
        } else {
            before
        }
    }
}

/// The reports of the orders that are asked for, in their order.
pub fn order_status_reports(orders: &Vec<AlpacaOrder>, want: &Option<Wanted>, ts: u64) -> (r: Vec<
    OrderReport,
>)
    ensures
        r@.len() == reported_orders(orders@, *want, orders@.len() as int).len(),
        forall|i: int|
            0 <= i < r@.len() ==> reports_order(
                #[trigger] r@[i],
                reported_orders(orders@, *want, orders@.len() as int)[i],
                ts,
            ),
{
    let mut out: Vec<OrderReport> = Vec::new();
    let mut i: usize = 0;
    while i < orders.len()
        invariant
            i <= orders@.len(),
            out@.len() == reported_orders(orders@, *want, i as int).len(),
            forall|k: int|
                0 <= k < out@.len() ==> reports_order(
                    #[trigger] out@[k],
                    reported_orders(orders@, *want, i as int)[k],
                    ts,
                ),
        decreases orders@.len() - i,
    {
        let order = &orders[i];
        let asked = match want {
            None => true,
            Some(w) => match &order.symbol {
                Some(s) => same_text(w.venue.as_str(), ALPACA) && same_text(
                    s.as_str(),
                    w.symbol.as_str(),
                ),
                None => false,
            },
        };
        if asked {
            if let Some(report) = parse_order_status_report(order, ts) {
                out.push(report);
            }
        }
        i = i + 1;
    }
    out
}

/// Those of the first `n` positions that are asked for and can be reported.
pub open spec fn reported_positions(
    positions: Seq<AlpacaPosition>,
    want: Option<Wanted>,
    n: int,
) -> Seq<AlpacaPosition>
    decreases n,
{
    if n <= 0 {
        Seq::empty()
    } else {
        let before = reported_positions(positions, want, n - 1);
        let position = positions[n - 1];
        if asked_for(want, Some(position.symbol@)) && position_reportable(position) {
            before.push(position)
        } else {
            before
        }
    }
}

/// The reports of the positions that are asked for, in their order.
pub fn position_status_reports(
    positions: &Vec<AlpacaPosition>,
    want: &Option<Wanted>,
    ts: u64,
) -> (r: Vec<PositionReport>)
    ensures
        r@.len() == reported_positions(positions@, *want, positions@.len() as int).len(),
        forall|i: int|
            0 <= i < r@.len() ==> reports_position(
                #[trigger] r@[i],
                reported_positions(positions@, *want, positions@.len() as int)[i],
                ts,
            ),
{
    let mut out: Vec<PositionReport> = Vec::new();
    let mut i: usize = 0;
    while i < positions.len()
        invariant
            i <= positions@.len(),
            out@.len() == reported_positions(positions@, *want, i as int).len(),
            forall|k: int|
                0 <= k < out@.len() ==> reports_position(
                    #[trigger] out@[k],
                    reported_positions(positions@, *want, i as int)[k],
                    ts,
                ),
        decreases positions@.len() - i,
    {
        let position = &positions[i];
        let asked = match want {
            None => true,
            Some(w) => same_text(w.venue.as_str(), ALPACA) && same_text(
                position.symbol.as_str(),
                w.symbol.as_str(),
            ),
        };
        if asked {
            if let Some(report) = parse_position_status_report(position, ts) {
                out.push(report);
            }
        }
        i = i + 1;
    }
    out
}

// ----- laws -----

proof fn orders_look_back(
    a: Seq<AlpacaOrder>,
    b: Seq<AlpacaOrder>,
    want: Option<Wanted>,
    n: int,
)
    requires
        0 <= n <= a.len(),
        n <= b.len(),
        forall|k: int| 0 <= k < n ==> a[k] == b[k],
    ensures
        reported_orders(a, want, n) == reported_orders(b, want, n),
    decreases n,
{
    if n > 0 {
        orders_look_back(a, b, want, n - 1);
    }
}

/// Each order that can be reported is, in its turn, where everything is asked for or its own symbol
/// at this broker is; no other order is.
pub proof fn orders_are_reported_where_asked_for(
    orders: Seq<AlpacaOrder>,
    order: AlpacaOrder,
    want: Option<Wanted>,
)
    ensures
        ({
            let n = orders.len() as int;
            let before = reported_orders(orders, want, n);
            let after = reported_orders(orders.push(order), want, n + 1);
            let asked = want matches Some(w) ==> w.venue@ == "ALPACA"@ && (
            order.symbol matches Some(symbol) && symbol@ == w.symbol@);
            &&& asked && reportable(order) ==> after == before.push(order)
            &&& !asked || !reportable(order) ==> after == before
        }),
        reported_orders(Seq::empty(), want, 0).len() == 0,
{
    let more = orders.push(order);
    assert forall|k: int| 0 <= k < orders.len() implies orders[k] == more[k] by {}
    orders_look_back(orders, more, want, orders.len() as int);
}

proof fn positions_look_back(
    a: Seq<AlpacaPosition>,
    b: Seq<AlpacaPosition>,
    want: Option<Wanted>,
    n: int,
)
    requires
        0 <= n <= a.len(),
        n <= b.len(),
        forall|k: int| 0 <= k < n ==> a[k] == b[k],
    ensures
        reported_positions(a, want, n) == reported_positions(b, want, n),
    decreases n,
{
    if n > 0 {
        positions_look_back(a, b, want, n - 1);
    }
}

/// Each position that can be reported is, in its turn, where everything is asked for or its own
/// symbol at this broker is; no other position is.
pub proof fn positions_are_reported_where_asked_for(
    positions: Seq<AlpacaPosition>,
    position: AlpacaPosition,
    want: Option<Wanted>,
)
    ensures
        ({
            let n = positions.len() as int;
            let before = reported_positions(positions, want, n);
            let after = reported_positions(positions.push(position), want, n + 1);
            let asked = want matches Some(w) ==> w.venue@ == "ALPACA"@ && position.symbol@
                == w.symbol@;
            &&& asked && position_reportable(position) ==> after == before.push(position)
            &&& !asked || !position_reportable(position) ==> after == before
        }),
        reported_positions(Seq::empty(), want, 0).len() == 0,
{
    let more = positions.push(position);
    assert forall|k: int| 0 <= k < positions.len() implies positions[k] == more[k] by {}
    positions_look_back(positions, more, want, positions.len() as int);
}

} // verus!
