//! The order validator: never submit an order that the broker would reject.
//!
//! An order of the right shape in the wrong session is a session reject; it may be held until the
//! next open. A shape that no session accepts is a structure reject.

use vstd::prelude::*;

use crate::alpaca::http::parse::type_error;
use crate::alpaca::rules::{
    check_subpenny, complex_allowed, is_regular_type, price_problem, regular_type, simple_rule,
    simple_validity, tif_in_scope,
};
use crate::alpaca::session::{MarketCalendar, Session};
use crate::decimal::Dec;
use crate::model::{OrderType, TimeInForce};

verus! {

/// The order tag that holds an order until the open on a session reject.
pub const QUEUE_FOR_OPEN_TAG: &'static str = "queue_for_open";

/// The shape of an order.
#[derive(Clone, Copy, Debug)]
pub struct OrderShape {
    /// The order's type.
    pub order_type: OrderType,
    /// The order's time in force.
    pub time_in_force: TimeInForce,
    /// Whether this is a bracket, one-cancels-other or one-triggers-other order.
    pub is_complex: bool,
    /// The limit price, if there is one.
    pub limit_price: Option<Dec>,
    /// The stop price, if there is one.
    pub stop_price: Option<Dec>,
    /// The trailing offset, if it is an absolute price.
    pub trail_price: Option<Dec>,
}

/// The validator's verdict.
#[derive(Clone, Debug, PartialEq)]
pub enum Validity {
    /// Valid now.
    Valid {
        /// Whether to set the extended-hours flag.
        extended_hours: bool,
    },
    /// The right shape in the wrong session.
    SessionReject {
        /// Why.
        reason: String,
    },
    /// A shape that no session accepts.
    StructureReject {
        /// Why.
        reason: String,
    },
}

/// A verdict with its reason as a sequence of characters.
pub enum Judgement {
    Valid(bool),
    SessionReject(Seq<char>),
    StructureReject(Seq<char>),
}

impl View for Validity {
    type V = Judgement;

    open spec fn view(&self) -> Judgement {
        match self {
            Validity::Valid { extended_hours } => Judgement::Valid(*extended_hours),
            Validity::SessionReject { reason } => Judgement::SessionReject(reason@),
            Validity::StructureReject { reason } => Judgement::StructureReject(reason@),
        }
    }
}

/// The order shapes that are accepted.
#[derive(Clone, Debug, PartialEq)]
pub struct OrderCapabilities {
    /// The session that they are accepted in.
    pub session: Session,
    /// The simple orders.
    pub simple: Vec<(OrderType, TimeInForce)>,
    /// Whether complex orders are accepted.
    pub complex_allowed: bool,
}

/// What is wrong with an optional price, if anything.
pub open spec fn optional_price_problem(price: Option<Dec>) -> Option<Seq<char>> {
    match price {
        Some(px) => price_problem(px),
        None => None,
    }
}

/// What is said of a time in force out of scope.
pub open spec fn tif_reason(tif: TimeInForce) -> Seq<char> {
    "time-in-force "@ + tif.named()
        + " is out of scope for US equities (only DAY/GTC; Alpaca rejects GTD/IOC/FOK/auction TIFs)"@
}

/// Why no session accepts the shape, if that is so: the first bad price, else the time in force,
/// else the type of a simple order.
pub open spec fn structure_problem(shape: OrderShape) -> Option<Seq<char>> {
    if optional_price_problem(shape.limit_price) is Some {
        optional_price_problem(shape.limit_price)
    } else if optional_price_problem(shape.stop_price) is Some {
        optional_price_problem(shape.stop_price)
    } else if optional_price_problem(shape.trail_price) is Some {
        optional_price_problem(shape.trail_price)
    } else if !tif_in_scope(shape.time_in_force) {
        Some(tif_reason(shape.time_in_force))
    } else if !shape.is_complex && !regular_type(shape.order_type) {
        Some(type_error(shape.order_type))
    } else {
        None
    }
}

/// What is said of a complex order outside regular hours.
pub open spec fn complex_reason(session: Session) -> Seq<char> {
    "bracket/OCO/OTO orders require Regular hours (current session: "@ + session.named() + ")"@
}

/// What is said of a simple order in a session that does not accept it.
pub open spec fn simple_reason(shape: OrderShape, session: Session) -> Seq<char> {
    shape.order_type.named() + " "@ + shape.time_in_force.named() + " not accepted in session "@
        + session.named()
}

/// The verdict on a shape in a session.
pub open spec fn judgement(shape: OrderShape, session: Session) -> Judgement {
    match structure_problem(shape) {
        Some(problem) => Judgement::StructureReject(problem),
        None => if shape.is_complex {
            if session == Session::Regular {
                Judgement::Valid(false)
            } else {
                Judgement::SessionReject(complex_reason(session))
            }
        } else {
            match simple_rule(shape.order_type, shape.time_in_force, session) {
                Some(extended_hours) => Judgement::Valid(extended_hours),
                None => Judgement::SessionReject(simple_reason(shape, session)),
            }
        },
    }
}

/// Whether a held order may be released at the pre-market open: a simple limit order in scope.
pub open spec fn released_premarket(shape: OrderShape) -> bool {
    !shape.is_complex && shape.order_type == OrderType::Limit && tif_in_scope(shape.time_in_force)
}

/// Whether a held order may be released at the pre-market open.
pub fn is_released_premarket(shape: &OrderShape) -> (r: bool)
    ensures
        r == released_premarket(*shape),
{
    let in_scope = match shape.time_in_force {
        TimeInForce::Day | TimeInForce::Gtc => true,
        _ => false,
    };
    !shape.is_complex && shape.order_type == OrderType::Limit && in_scope
}

/// The simple orders that capabilities speak of, in their order.
pub open spec fn listed(i: int) -> (OrderType, TimeInForce) {
    let order_type = if i / 2 == 0 {
        OrderType::Market
    } else if i / 2 == 1 {
        OrderType::Limit
    } else if i / 2 == 2 {
        OrderType::StopMarket
    } else {
        OrderType::StopLimit
    };
    let tif = if i % 2 == 0 {
        TimeInForce::Day
    } else {
        TimeInForce::Gtc
    };
    (order_type, tif)
}

/// Those of the first `n` listed simple orders that a session accepts.
pub open spec fn accepted(session: Session, n: int) -> Seq<(OrderType, TimeInForce)>
    decreases n,
{
    if n <= 0 {
        Seq::empty()
    } else if simple_rule(listed(n - 1).0, listed(n - 1).1, session) is Some {
        accepted(session, n - 1).push(listed(n - 1))
    } else {
        accepted(session, n - 1)
    }
}

/// Checks the price, if there is one.
fn check_price(price: Option<Dec>) -> (r: Option<String>)
    ensures
        match (r, optional_price_problem(price)) {
            (None, None) => true,
            (Some(reason), Some(problem)) => reason@ == problem,
            _ => false,
        },
{
    match price {
        None => None,
        Some(px) => match check_subpenny(px) {
            Ok(_) => None,
            Err(reason) => Some(reason),
        },
    }
}

/// Why no session accepts the shape, if that is so.
pub fn check_structure(shape: &OrderShape) -> (r: Option<String>)
    ensures
        match (r, structure_problem(*shape)) {
            (None, None) => true,
            (Some(reason), Some(problem)) => reason@ == problem,
            _ => false,
        },
{
    if let Some(reason) = check_price(shape.limit_price) {
        return Some(reason);
    }
    if let Some(reason) = check_price(shape.stop_price) {
        return Some(reason);
    }
    if let Some(reason) = check_price(shape.trail_price) {
        return Some(reason);
    }
    match shape.time_in_force {
        TimeInForce::Day | TimeInForce::Gtc => {},
        tif => {
            return Some(
                "time-in-force ".to_owned().concat(tif.name()).concat(
                    " is out of scope for US equities (only DAY/GTC; Alpaca rejects GTD/IOC/FOK/auction TIFs)",
                ),
            );
        },
    }
    if !shape.is_complex && !is_regular_type(shape.order_type) {
        return Some(
            "unsupported order type for Alpaca: ".to_owned().concat(shape.order_type.name()),
        );
    }
    None
}

/// The verdict on a shape, that some session accepts, in `session`.
pub fn validate_in(shape: &OrderShape, session: Session) -> (r: Validity)
    requires
        structure_problem(*shape) is None,
    ensures
        r@ == judgement(*shape, session),
{
    if shape.is_complex {
        return if complex_allowed(shape.time_in_force, session) {
            Validity::Valid { extended_hours: false }
        } else {
            Validity::SessionReject {
                reason: "bracket/OCO/OTO orders require Regular hours (current session: ".to_owned().concat(
                    session.name(),
                ).concat(")"),
            }
        };
    }
    match simple_validity(shape.order_type, shape.time_in_force, session) {
        Some(extended_hours) => Validity::Valid { extended_hours },
        None => Validity::SessionReject {
            reason: shape.order_type.name().to_owned().concat(" ").concat(
                shape.time_in_force.name(),
            ).concat(" not accepted in session ").concat(session.name()),
        },
    }
}

/// The validator over a calendar.
#[derive(Debug)]
pub struct OrderValidator<C: MarketCalendar> {
    pub calendar: C,
}

impl<C: MarketCalendar> OrderValidator<C> {
    /// A validator over `calendar`.
    pub fn new(calendar: C) -> (r: OrderValidator<C>)
        ensures
            r.calendar == calendar,
    {
        OrderValidator { calendar }
    }

    /// The session in effect at `at`.
    pub fn session_at(&self, at: u64) -> (r: Session)
        requires
            self.calendar.covers(at),
        ensures
            r == self.calendar.session(at),
    {
        self.calendar.session_at(at)
    }

    /// The verdict on `shape` at `at`. The instant matters only where the structure is in order.
    pub fn validate(&self, shape: &OrderShape, at: u64) -> (r: Validity)
        requires
            structure_problem(*shape) is Some || self.calendar.covers(at),
        ensures
            r@ == judgement(*shape, self.calendar.session(at)),
    {
        if let Some(reason) = check_structure(shape) {
            return Validity::StructureReject { reason };
        }
        validate_in(shape, self.calendar.session_at(at))
    }

    /// The order shapes that are accepted at `at`.
    pub fn order_capabilities(&self, at: u64) -> (r: OrderCapabilities)
        requires
            self.calendar.covers(at),
        ensures
            r.session == self.calendar.session(at),
            r.simple@ == accepted(self.calendar.session(at), 8),
            r.complex_allowed == (self.calendar.session(at) == Session::Regular),
    {
        let session = self.calendar.session_at(at);
        let mut simple: Vec<(OrderType, TimeInForce)> = Vec::new();
        let types = [OrderType::Market, OrderType::Limit, OrderType::StopMarket, OrderType::StopLimit];
        let tifs = [TimeInForce::Day, TimeInForce::Gtc];
        let mut i: usize = 0;
        while i < 8
            invariant
                i <= 8,
                types@ == seq![
                    OrderType::Market,
                    OrderType::Limit,
                    OrderType::StopMarket,
                    OrderType::StopLimit,
                ],
                tifs@ == seq![TimeInForce::Day, TimeInForce::Gtc],
                simple@ == accepted(session, i as int),
            decreases 8 - i,
        {
            let order_type = types[i / 2];
            let tif = tifs[i % 2];
            assert(listed(i as int) == (order_type, tif));
            if simple_validity(order_type, tif, session).is_some() {
                simple.push((order_type, tif));
            }
            i = i + 1;
        }
        OrderCapabilities {
            session,
            simple,
            complex_allowed: complex_allowed(TimeInForce::Day, session),
        }
    }

    /// The earliest open at which a held order may be released: the next pre-market open for a
    /// simple limit order, else the next regular open.
    pub fn earliest_valid_open(&self, shape: &OrderShape, at: u64) -> (r: u64)
        requires
            released_premarket(*shape) ==> self.calendar.covers_premarket(at),
            !released_premarket(*shape) ==> self.calendar.covers_regular(at),
        ensures
            r == if released_premarket(*shape) {
                self.calendar.premarket_open(at)
            } else {
                self.calendar.regular_open(at)
            },
            at < r,
            self.calendar.session(r) == if released_premarket(*shape) {
                Session::PreMarket
            } else {
                Session::Regular
            },
    {
        if is_released_premarket(shape) {
            self.calendar.next_premarket_open(at)
        } else {
            self.calendar.next_regular_open(at)
        }
    }
}

// ----- laws -----

/// A structure reject does not depend on the session: no session makes the shape valid.
pub proof fn no_session_rescues_structure(shape: OrderShape, a: Session, b: Session)
    requires
        judgement(shape, a) is StructureReject,
    ensures
        judgement(shape, b) == judgement(shape, a),
{
}

/// A shape that only the session rejects is valid in another session: in regular hours.
pub proof fn session_rejects_pass_in_regular_hours(shape: OrderShape, session: Session)
    requires
        judgement(shape, session) is SessionReject,
    ensures
        judgement(shape, Session::Regular) == Judgement::Valid(false),
{
}

/// An order is a structure reject exactly when every session rejects it.
pub proof fn structure_rejects_are_rejected_everywhere(shape: OrderShape)
    ensures
        structure_problem(shape) is Some <==> forall|session: Session|
            !(#[trigger] judgement(shape, session) is Valid),
{
    if structure_problem(shape) is None {
        assert(judgement(shape, Session::Regular) is Valid);
    }
}

/// The extended-hours flag is set exactly on valid orders outside regular hours.
pub proof fn flag_marks_extended_hours(shape: OrderShape, session: Session, flag: bool)
    requires
        judgement(shape, session) == Judgement::Valid(flag),
    ensures
        flag == session.extended(),
        session != Session::Closed,
{
}

/// A held order that is released at the pre-market open is valid there, with the flag; any other
/// one is valid at the regular open, without it.
pub proof fn released_orders_are_valid(shape: OrderShape)
    requires
        structure_problem(shape) is None,
    ensures
        released_premarket(shape) ==> judgement(shape, Session::PreMarket) == Judgement::Valid(true),
        !released_premarket(shape) ==> judgement(shape, Session::Regular) == Judgement::Valid(false),
{
}

/// A listed simple order is among the capabilities exactly when a session accepts it.
pub proof fn capabilities_are_what_validates(session: Session, n: int, i: int)
    requires
        0 <= i < n <= 8,
    ensures
        accepted(session, n).contains(listed(i)) <==> simple_rule(
            listed(i).0,
            listed(i).1,
            session,
        ) is Some,
    decreases n,
{
    if n > 0 {
        let before = accepted(session, n - 1);
        let last = listed(n - 1);
        assert(accepted(session, n).contains(listed(i)) <==> before.contains(listed(i)) || (
        simple_rule(last.0, last.1, session) is Some && last == listed(i))) by {
            if before.contains(listed(i)) {
                let k = choose|k: int| 0 <= k < before.len() && before[k] == listed(i);
                assert(accepted(session, n)[k] == listed(i));
            }
            if simple_rule(last.0, last.1, session) is Some {
                assert(accepted(session, n)[before.len() as int] == last);
            }
            if accepted(session, n).contains(listed(i)) {
                let k = choose|k: int|
                    0 <= k < accepted(session, n).len() && accepted(session, n)[k] == listed(i);
                if k < before.len() {
                    assert(before[k] == listed(i));
                }
            }
        }
        if i < n - 1 {
            capabilities_are_what_validates(session, n - 1, i);
        } else if before.contains(listed(i)) {
            only_accepted_ones(session, n - 1, listed(i));
        }
    }
}

proof fn only_accepted_ones(session: Session, n: int, pair: (OrderType, TimeInForce))
    requires
        accepted(session, n).contains(pair),
    ensures
        simple_rule(pair.0, pair.1, session) is Some,
    decreases n,
{
    if n > 0 {
        let k = choose|k: int| 0 <= k < accepted(session, n).len() && accepted(session, n)[k] == pair;
        if simple_rule(listed(n - 1).0, listed(n - 1).1, session) is Some {
            if k < accepted(session, n - 1).len() {
                assert(accepted(session, n - 1)[k] == pair);
                only_accepted_ones(session, n - 1, pair);
            }
        } else {
            only_accepted_ones(session, n - 1, pair);
        }
    }
}

/// Which orders are valid, and with which flag. An order is valid where every price that it has is
/// accepted, it is for the day or good till canceled, and the session takes it: regular hours take
/// complex orders and all simple ones but those that wait to be touched, without the flag; the
/// sessions before, after and between them take simple limit orders, with the flag; a closed market
/// takes none.
pub proof fn valid_orders_by_session(shape: OrderShape, session: Session)
    ensures
        ({
            let prices = (shape.limit_price matches Some(px) ==> price_problem(px) is None) && (
            shape.stop_price matches Some(px) ==> price_problem(px) is None) && (
            shape.trail_price matches Some(px) ==> price_problem(px) is None);
            let in_scope = shape.time_in_force == TimeInForce::Day || shape.time_in_force
                == TimeInForce::Gtc;
            let touched = shape.order_type == OrderType::MarketIfTouched || shape.order_type
                == OrderType::LimitIfTouched;
            &&& judgement(shape, session) == Judgement::Valid(false) <==> prices && in_scope
                && session == Session::Regular && (shape.is_complex || !touched)
            &&& judgement(shape, session) == Judgement::Valid(true) <==> prices && in_scope
                && !shape.is_complex && shape.order_type == OrderType::Limit && (session
                == Session::PreMarket || session == Session::AfterHours || session
                == Session::Overnight)
            &&& judgement(shape, session) is StructureReject <==> !prices || !in_scope || (
            !shape.is_complex && touched)
        }),
{
}

/// The reason that is given is the first: the limit price's, the stop price's, the trailing
/// price's, then the time in force, then the type.
pub proof fn the_first_problem_is_told(shape: OrderShape, session: Session, px: Dec)
    requires
        price_problem(px) is Some,
    ensures
        shape.limit_price == Some(px) ==> judgement(shape, session) == Judgement::StructureReject(
            price_problem(px)->0,
        ),
        shape.limit_price is None && shape.stop_price == Some(px) ==> judgement(shape, session)
            == Judgement::StructureReject(price_problem(px)->0),
        shape.limit_price is None && shape.stop_price is None && shape.trail_price == Some(px)
            ==> judgement(shape, session) == Judgement::StructureReject(price_problem(px)->0),
{
}

/// The simple orders that capabilities list: in regular hours market, limit, stop and stop-limit
/// orders, each for the day and good till canceled; before, after and between them limit orders in
/// both times in force; in a closed market none.
pub proof fn capabilities_by_session(session: Session)
    ensures
        session == Session::Regular ==> accepted(session, 8) == seq![
            (OrderType::Market, TimeInForce::Day),
            (OrderType::Market, TimeInForce::Gtc),
            (OrderType::Limit, TimeInForce::Day),
            (OrderType::Limit, TimeInForce::Gtc),
            (OrderType::StopMarket, TimeInForce::Day),
            (OrderType::StopMarket, TimeInForce::Gtc),
            (OrderType::StopLimit, TimeInForce::Day),
            (OrderType::StopLimit, TimeInForce::Gtc),
        ],
        session == Session::PreMarket || session == Session::AfterHours || session
            == Session::Overnight ==> accepted(session, 8) == seq![
            (OrderType::Limit, TimeInForce::Day),
            (OrderType::Limit, TimeInForce::Gtc),
        ],
        session == Session::Closed ==> accepted(session, 8).len() == 0,
{
    reveal_with_fuel(accepted, 9);
    assert(listed(0) == (OrderType::Market, TimeInForce::Day));
    assert(listed(1) == (OrderType::Market, TimeInForce::Gtc));
    assert(listed(2) == (OrderType::Limit, TimeInForce::Day));
    assert(listed(3) == (OrderType::Limit, TimeInForce::Gtc));
    assert(listed(4) == (OrderType::StopMarket, TimeInForce::Day));
    assert(listed(5) == (OrderType::StopMarket, TimeInForce::Gtc));
    assert(listed(6) == (OrderType::StopLimit, TimeInForce::Day));
    assert(listed(7) == (OrderType::StopLimit, TimeInForce::Gtc));
}

/// Held until the pre-market open are simple limit orders for the day or good till canceled, and no
/// others.
pub proof fn only_simple_limit_orders_open_early(shape: OrderShape)
    ensures
        released_premarket(shape) <==> !shape.is_complex && shape.order_type == OrderType::Limit && (
        shape.time_in_force == TimeInForce::Day || shape.time_in_force == TimeInForce::Gtc),
{
}

/// What is said of a verdict is what it holds.
pub proof fn verdicts_are_their_parts(v: Validity)
    ensures
        v matches Validity::Valid { extended_hours } ==> v@ == Judgement::Valid(extended_hours),
        v matches Validity::SessionReject { reason } ==> v@ == Judgement::SessionReject(reason@),
        v matches Validity::StructureReject { reason } ==> v@ == Judgement::StructureReject(
            reason@,
        ),
{
}

} // verus!
