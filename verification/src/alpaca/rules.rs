//! Which order shapes the broker accepts in which session.
//!
//! The scope is whole shares of US equities with a time in force of day or good-till-canceled.

use vstd::arithmetic::power::{lemma_pow_adds, lemma_pow_positive};
use vstd::prelude::*;

use crate::alpaca::session::Session;
use crate::decimal::{
    aligned, aligned_keeps_sign, below, below_at, dec_parts, decimal_text, has_decimals_within,
    normalized, ten_to, Dec, MAX_PLACES,
};
use crate::model::{OrderType, TimeInForce};

verus! {

/// Whether a time in force is in scope.
pub open spec fn tif_in_scope(tif: TimeInForce) -> bool {
    tif == TimeInForce::Day || tif == TimeInForce::Gtc
}

/// Whether a simple order of this type is accepted in regular hours.
pub open spec fn regular_type(order_type: OrderType) -> bool {
    order_type != OrderType::MarketIfTouched && order_type != OrderType::LimitIfTouched
}

/// Whether a simple order of this type is accepted in regular hours.
pub fn is_regular_type(order_type: OrderType) -> (r: bool)
    ensures
        r == regular_type(order_type),
{
    match order_type {
        OrderType::Market
        | OrderType::Limit
        | OrderType::StopMarket
        | OrderType::StopLimit
        | OrderType::TrailingStopMarket
        | OrderType::TrailingStopLimit
        | OrderType::MarketToLimit => true,
        OrderType::MarketIfTouched | OrderType::LimitIfTouched => false,
    }
}

/// Whether a simple order is accepted in a session, and if so whether it needs the
/// extended-hours flag: in regular hours most types without it, in extended hours limit orders
/// with it, while closed none.
pub open spec fn simple_rule(
    order_type: OrderType,
    tif: TimeInForce,
    session: Session,
) -> Option<bool> {
    if !tif_in_scope(tif) {
        None
    } else if session == Session::Regular && regular_type(order_type) {
        Some(false)
    } else if session.extended() && order_type == OrderType::Limit {
        Some(true)
    } else {
        None
    }
}

/// Whether a simple order is accepted in `session`: `None` if not, else whether it has to carry
/// the extended-hours flag.
pub fn simple_validity(order_type: OrderType, tif: TimeInForce, session: Session) -> (r: Option<
    bool,
>)
    ensures
        r == simple_rule(order_type, tif, session),
{
    match tif {
        TimeInForce::Day | TimeInForce::Gtc => {},
        _ => return None,
    }
    match session {
        Session::Regular => if is_regular_type(order_type) {
            Some(false)
        } else {
            None
        },
        Session::PreMarket | Session::AfterHours | Session::Overnight => match order_type {
            OrderType::Limit => Some(true),
            _ => None,
        },
        Session::Closed => None,
    }
}

/// Whether a bracket, one-cancels-other or one-triggers-other order is accepted in `session`.
pub fn complex_allowed(tif: TimeInForce, session: Session) -> (r: bool)
    ensures
        r == (tif_in_scope(tif) && session == Session::Regular),
{
    match tif {
        TimeInForce::Day | TimeInForce::Gtc => session == Session::Regular,
        _ => false,
    }
}

/// The most decimals that a price may have: two from one dollar on, four below.
pub open spec fn max_decimals(price: Dec) -> nat {
    if below(price, Dec::of(1, 0)) {
        4
    } else {
        2
    }
}

/// What is wrong with a price, if anything: it is not positive, or it has too many decimals.
pub open spec fn price_problem(price: Dec) -> Option<Seq<char>> {
    let shown = decimal_text(normalized(price));
    if price.units() <= 0 {
        Some("price "@ + shown + " must be positive and finite"@)
    } else if has_decimals_within(price, max_decimals(price)) {
        None
    } else if below(price, Dec::of(1, 0)) {
        Some(
            "price "@ + shown
                + " violates sub-penny rule (max 4 decimals for price < $1.00)"@,
        )
    } else {
        Some(
            "price "@ + shown
                + " violates sub-penny rule (max 2 decimals for price ≥ $1.00)"@,
        )
    }
}

/// Checks the sub-penny rule: a price of one dollar or more has at most two decimals, a lower one
/// at most four.
pub fn check_subpenny(price: Dec) -> (r: Result<(), String>)
    ensures
        match (r, price_problem(price)) {
            (Ok(_), None) => true,
            (Err(reason), Some(problem)) => reason@ == problem,
            _ => false,
        },
{
    let shown = price.normalize().text();
    if !price.is_positive() {
        return Err("price ".to_owned().concat(shown.as_str()).concat(" must be positive and finite"));
    }
    let one = Dec::new(1, 0).unwrap();
    let small = price.less_than(one);
    let max_dp: u32 = if small {
        4
    } else {
        2
    };
    if price.decimals_within(max_dp) {
        return Ok(());
    }
    if small {
        Err(
            "price ".to_owned().concat(shown.as_str()).concat(
                " violates sub-penny rule (max 4 decimals for price < $1.00)",
            ),
        )
    } else {
        Err(
            "price ".to_owned().concat(shown.as_str()).concat(
                " violates sub-penny rule (max 2 decimals for price ≥ $1.00)",
            ),
        )
    }
}

// ----- laws -----

/// Extended hours accept limit orders in scope and nothing else, always with the flag; the flag
/// is never asked for in regular hours; a closed market accepts nothing.
pub proof fn extended_hours_take_only_limit_orders(
    order_type: OrderType,
    tif: TimeInForce,
    session: Session,
)
    ensures
        simple_rule(order_type, tif, session) == Some(true) <==> session.extended() && order_type
            == OrderType::Limit && tif_in_scope(tif),
        simple_rule(order_type, tif, session) == Some(false) ==> session == Session::Regular,
        session == Session::Closed ==> simple_rule(order_type, tif, session) is None,
        !tif_in_scope(tif) ==> simple_rule(order_type, tif, session) is None,
{
}

/// A positive price with at most two decimals is accepted whatever its size.
pub proof fn whole_cents_are_accepted(price: Dec)
    requires
        price.valid(),
        price.units() > 0,
        price.places() <= 2,
    ensures
        price_problem(price) is None,
{
}

proof fn decimals_by_value(price: Dec, n: nat)
    requires
        price.valid(),
        price.units() > 0,
        n <= MAX_PLACES,
    ensures
        has_decimals_within(price, n) <==> aligned(price, MAX_PLACES as nat) % ten_to(
            (MAX_PLACES - n) as nat,
        ) == 0,
{
    let p = price.places();
    let u = price.units();
    let s = MAX_PLACES as nat;
    let unit = ten_to((s - n) as nat);
    lemma_pow_positive(10, (s - n) as nat);
    lemma_pow_positive(10, (s - p) as nat);
    if p <= n {
        lemma_pow_adds(10, (n - p) as nat, (s - n) as nat);
        assert((n - p) as nat + (s - n) as nat == (s - p) as nat);
        let k = ten_to((n - p) as nat);
        assert(u * (k * unit) == (u * k) * unit) by (nonlinear_arith);
        vstd::arithmetic::div_mod::lemma_mod_multiples_basic(u * k, unit);
    } else {
        let t = ten_to((s - p) as nat);
        let d = ten_to((p - n) as nat);
        lemma_pow_positive(10, (p - n) as nat);
        lemma_pow_adds(10, (s - p) as nat, (p - n) as nat);
        assert((s - p) as nat + (p - n) as nat == (s - n) as nat);
        assert(u * t == t * u) by (nonlinear_arith);
        vstd::arithmetic::div_mod::lemma_truncate_middle(u, t, d);
        vstd::arithmetic::div_mod::lemma_mod_bound(u, d);
        let r = u % d;
        assert(t > 0 && r >= 0 ==> (t * r == 0 <==> r == 0)) by (nonlinear_arith);
    }
}

/// A price is accepted exactly when it is positive and, from one dollar on, a whole number of
/// cents, or below one dollar a whole number of hundredths of a cent.
pub proof fn accepted_prices_are_whole_ticks(price: Dec)
    requires
        price.valid(),
    ensures
        ({
            let value = aligned(price, MAX_PLACES as nat);
            let dollar = ten_to(28);
            let cent = ten_to(26);
            price_problem(price) is None <==> {
                ||| value >= dollar && value % cent == 0
                ||| 0 < value < dollar && value % ten_to(24) == 0
            }
        }),
{
    broadcast use dec_parts;

    aligned_keeps_sign(price, MAX_PLACES as nat);
    below_at(price, Dec::of(1, 0), MAX_PLACES as nat);
    assert(aligned(Dec::of(1, 0), MAX_PLACES as nat) == ten_to(28));
    lemma_pow_positive(10, 28);
    if price.units() > 0 {
        decimals_by_value(price, 2);
        decimals_by_value(price, 4);
    }
}

/// The simple orders that a session accepts, and whether they carry the extended-hours flag. Only
/// orders for the day or good till canceled are accepted at all. Regular hours accept every type
/// but the two that wait to be touched, without the flag. Before, after and between regular hours
/// only limit orders are accepted, with the flag. A closed market accepts none.
pub proof fn sessions_accept_their_types(
    order_type: OrderType,
    tif: TimeInForce,
    session: Session,
)
    ensures
        ({
            let in_scope = tif == TimeInForce::Day || tif == TimeInForce::Gtc;
            let touched = order_type == OrderType::MarketIfTouched || order_type
                == OrderType::LimitIfTouched;
            &&& simple_rule(order_type, tif, session) == Some(false) <==> in_scope && session
                == Session::Regular && !touched
            &&& simple_rule(order_type, tif, session) == Some(true) <==> in_scope && order_type
                == OrderType::Limit && (session == Session::PreMarket || session
                == Session::AfterHours || session == Session::Overnight)
        }),
{
}

} // verus!
