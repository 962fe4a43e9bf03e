//! Local refusal of orders that the broker would reject for the state of the account: a sale of
//! more shares than are held and free, the same for a purchase against a short position, and a
//! limit order that would trade with one of our own resting limit orders.

use vstd::arithmetic::power::{lemma_pow0, lemma_pow_positive};
use vstd::prelude::*;

use crate::decimal::{
    aligned, aligned_negated, below, below_at, dec_parts, dec_same, decimal_difference,
    decimal_sum, decimal_text, difference_in_range, difference_value, sum_in_range, sum_value,
    ten_to, Dec, MAX_PLACES, UNITS_END,
};

verus! {

/// An open order on the symbol.
#[derive(Clone, Copy, Debug)]
pub struct OpenOrderView {
    /// Whether the order buys; else it sells.
    pub is_buy: bool,
    /// The quantity that is not filled yet.
    pub leaves_qty: Dec,
    /// The limit price, if the order has one.
    pub limit_price: Option<Dec>,
}

/// The order under evaluation.
#[derive(Clone, Copy, Debug)]
pub struct PendingOrder {
    /// Whether the order buys; else it sells.
    pub is_buy: bool,
    /// The quantity.
    pub quantity: Dec,
    /// The limit price, if the order has one.
    pub limit_price: Option<Dec>,
}

/// The quantity left on the first `n` open orders of one side, added up from the first on.
pub open spec fn reserved(open: Seq<OpenOrderView>, is_buy: bool, n: int) -> Option<Dec>
    decreases n,
{
    if n <= 0 {
        Some(Dec::nought())
    } else {
        let before = reserved(open, is_buy, n - 1);
        if open[n - 1].is_buy != is_buy {
            before
        } else {
            match before {
                None => None,
                Some(sum) => decimal_sum(sum, open[n - 1].leaves_qty),
            }
        }
    }
}

/// The same, as far as every sum on the way is known to be exact.
pub open spec fn reserved_exactly(open: Seq<OpenOrderView>, is_buy: bool, n: int) -> Option<Dec>
    decreases n,
{
    if n <= 0 {
        Some(Dec::nought())
    } else {
        let before = reserved_exactly(open, is_buy, n - 1);
        if open[n - 1].is_buy != is_buy {
            before
        } else {
            match before {
                None => None,
                Some(sum) => sum_in_range(sum, open[n - 1].leaves_qty),
            }
        }
    }
}

proof fn exact_prefix(open: Seq<OpenOrderView>, is_buy: bool, i: int, n: int)
    requires
        0 <= i <= n,
        reserved_exactly(open, is_buy, n) is Some,
    ensures
        reserved_exactly(open, is_buy, i) is Some,
    decreases n - i,
{
    if i < n {
        exact_prefix(open, is_buy, i, n - 1);
    }
}

/// The number, or zero where it is not positive.
pub open spec fn at_least_zero(a: Dec) -> Dec {
    if a.units() <= 0 {
        Dec::nought()
    } else {
        a
    }
}

/// What holds of an order: it may go, it is refused, or a number does not fit in a decimal.
pub enum Wash {
    Unfit,
    Clear,
    Refused(Seq<char>),
}

/// What is said of a sale of more than is available.
pub open spec fn short_sale_reason(
    quantity: Dec,
    available: Dec,
    position: Dec,
    held_back: Dec,
) -> Seq<char> {
    "would sell "@ + decimal_text(quantity) + " share(s) but only "@ + decimal_text(available)
        + " available (position "@ + decimal_text(position) + ", "@ + decimal_text(held_back)
        + " reserved by open sells) — Alpaca rejects this as an uncovered short / insufficient qty"@
}

/// What is said of a purchase of more than covers a short position.
pub open spec fn long_flip_reason(
    quantity: Dec,
    short: Dec,
    available: Dec,
    held_back: Dec,
) -> Seq<char> {
    "would buy "@ + decimal_text(quantity) + " share(s) to cover a "@ + decimal_text(short)
        + " short but only "@ + decimal_text(available) + " available ("@ + decimal_text(held_back)
        + " reserved by open buys) — Alpaca rejects this as flipping long while short"@
}

/// The shares that an order is measured against: the long position for a sale, the short one for a
/// purchase.
pub open spec fn held_against(order: PendingOrder, position: Dec) -> Dec {
    if order.is_buy {
        at_least_zero(position.negated())
    } else {
        at_least_zero(position)
    }
}

/// The quantity rule: a sale may dispose of the long position less what open sells reserve; a
/// purchase while short may cover the short position less what open buys reserve.
pub open spec fn quantity_rule(
    order: PendingOrder,
    position: Dec,
    open: Seq<OpenOrderView>,
) -> Wash {
    let held = held_against(order, position);
    if order.is_buy && held.units() <= 0 {
        Wash::Clear
    } else {
        match reserved(open, order.is_buy, open.len() as int) {
            None => Wash::Unfit,
            Some(held_back) => match decimal_difference(held, held_back) {
                None => Wash::Unfit,
                Some(available) => if !below(available, order.quantity) {
                    Wash::Clear
                } else if order.is_buy {
                    Wash::Refused(long_flip_reason(order.quantity, held, available, held_back))
                } else {
                    Wash::Refused(
                        short_sale_reason(order.quantity, available, position, held_back),
                    )
                },
            },
        }
    }
}

/// What is free of the shares that an order is measured against, as far as the arithmetic is known
/// to be exact.
pub open spec fn free_exactly(
    order: PendingOrder,
    position: Dec,
    open: Seq<OpenOrderView>,
) -> Option<Dec> {
    match reserved_exactly(open, order.is_buy, open.len() as int) {
        None => None,
        Some(held_back) => difference_in_range(held_against(order, position), held_back),
    }
}

/// The value of a decimal, in units of the last place that a decimal can have.
pub open spec fn value_of(d: Dec) -> int {
    aligned(d, MAX_PLACES as nat)
}

/// The value that is left on the open orders of one side.
pub open spec fn reserved_value(open: Seq<OpenOrderView>, is_buy: bool) -> int
    decreases open.len(),
{
    if open.len() == 0 {
        0
    } else {
        reserved_value(open.drop_last(), is_buy) + side_value(open.last(), is_buy)
    }
}

/// The value that is left on an open order, if it is on this side.
pub open spec fn side_value(order: OpenOrderView, is_buy: bool) -> int {
    if order.is_buy == is_buy {
        value_of(order.leaves_qty)
    } else {
        0
    }
}

/// Whether an order is measured against shares: every sale, and a purchase while short.
pub open spec fn is_measured(order: PendingOrder, position: Dec) -> bool {
    !order.is_buy || held_against(order, position).units() > 0
}

/// Whether an order asks for more than is free of the shares that it is measured against.
pub open spec fn asks_too_much(
    order: PendingOrder,
    position: Dec,
    open: Seq<OpenOrderView>,
) -> bool {
    is_measured(order, position) && value_of(held_against(order, position)) - reserved_value(
        open,
        order.is_buy,
    ) < value_of(order.quantity)
}

/// Whether a limit order would trade with some open order.
pub open spec fn crosses_some(order: PendingOrder, open: Seq<OpenOrderView>) -> bool {
    order.limit_price matches Some(px) && exists|k: int|
        0 <= k < open.len() && crosses(order.is_buy, px, #[trigger] open[k])
}

/// Whether the broker would reject an order, by the values of the numbers alone.
pub open spec fn would_be_rejected(
    order: PendingOrder,
    position: Dec,
    open: Seq<OpenOrderView>,
) -> bool {
    asks_too_much(order, position, open) || crosses_some(order, open)
}

/// Whether every sum that an order asks for is known to be exact.
pub open spec fn sums_are_exact(
    order: PendingOrder,
    position: Dec,
    open: Seq<OpenOrderView>,
) -> bool {
    is_measured(order, position) ==> free_exactly(order, position, open) is Some
}

/// Whether what is reserved and what is free are the exact numbers, where every sum is known to be
/// exact.
pub open spec fn adds_exactly(
    order: PendingOrder,
    position: Dec,
    open: Seq<OpenOrderView>,
) -> bool {
    let n = open.len() as int;
    is_measured(order, position) && free_exactly(order, position, open) is Some ==> reserved(
        open,
        order.is_buy,
        n,
    ) == reserved_exactly(open, order.is_buy, n) && decimal_difference(
        held_against(order, position),
        reserved_exactly(open, order.is_buy, n)->0,
    ) == free_exactly(order, position, open)
}

/// Whether the values decide, where every sum is exact: the quantity rule is kept exactly when the
/// order does not ask too much.
pub open spec fn values_decide_quantity(
    order: PendingOrder,
    position: Dec,
    open: Seq<OpenOrderView>,
) -> bool {
    &&& adds_exactly(order, position, open)
    &&& sums_are_exact(order, position, open) ==> quantity_rule(order, position, open) !is Unfit
        && (quantity_rule(order, position, open) is Clear <==> !asks_too_much(
        order,
        position,
        open,
    ))
}

/// Whether the values decide, where every sum is exact: an order is refused exactly when it asks
/// too much or would trade with an own open order.
pub open spec fn values_decide(
    order: PendingOrder,
    position: Dec,
    open: Seq<OpenOrderView>,
) -> bool {
    &&& adds_exactly(order, position, open)
    &&& sums_are_exact(order, position, open) ==> wash(order, position, open) !is Unfit && (wash(
        order,
        position,
        open,
    ) is Refused <==> would_be_rejected(order, position, open))
}

/// Whether a limit order at `px` would trade with the open order `other`: a purchase at or above a
/// resting sell limit, a sale at or below a resting buy limit.
pub open spec fn crosses(is_buy: bool, px: Dec, other: OpenOrderView) -> bool {
    &&& other.is_buy != is_buy
    &&& other.limit_price matches Some(other_px) && if is_buy {
        !below(px, other_px)
    } else {
        !below(other_px, px)
    }
}

/// What is said of a limit order that would trade with the open order `other`.
pub open spec fn cross_reason(px: Dec, other: OpenOrderView) -> Seq<char> {
    "limit "@ + decimal_text(px) + " would cross own resting "@ + (if other.is_buy {
        "buy"@
    } else {
        "sell"@
    }) + " limit "@ + decimal_text(other.limit_price->0)
        + " — Alpaca rejects this as a potential wash trade (use complex/limit/stop-limit)"@
}

/// The first open order, from `i` on, that a limit order at `px` would trade with.
pub open spec fn first_cross(
    is_buy: bool,
    px: Dec,
    open: Seq<OpenOrderView>,
    i: int,
) -> Option<OpenOrderView>
    decreases open.len() - i,
{
    if i < 0 || i >= open.len() {
        None
    } else if crosses(is_buy, px, open[i]) {
        Some(open[i])
    } else {
        first_cross(is_buy, px, open, i + 1)
    }
}

/// What holds of `order`: first the quantity rule, then the first own order that it would cross.
pub open spec fn wash(order: PendingOrder, position: Dec, open: Seq<OpenOrderView>) -> Wash {
    match quantity_rule(order, position, open) {
        Wash::Clear => match order.limit_price {
            None => Wash::Clear,
            Some(px) => match first_cross(order.is_buy, px, open, 0) {
                None => Wash::Clear,
                Some(other) => Wash::Refused(cross_reason(px, other)),
            },
        },
        other => other,
    }
}

/// Adds up the quantity left on the open orders of one side; `None` where a sum does not fit.
fn add_reserved(open_orders: &[OpenOrderView], is_buy: bool) -> (r: Option<Dec>)
    ensures
        r == reserved(open_orders@, is_buy, open_orders@.len() as int),
        reserved_exactly(open_orders@, is_buy, open_orders@.len() as int) is Some ==> r
            == reserved_exactly(open_orders@, is_buy, open_orders@.len() as int) && r->0.valid()
            && value_of(r->0) == reserved_value(open_orders@, is_buy),
{
    let ghost exact = reserved_exactly(open_orders@, is_buy, open_orders@.len() as int) is Some;
    let mut sum: Option<Dec> = Some(Dec::zero());
    let mut i: usize = 0;
    proof {
        broadcast use dec_parts;

        assert(0 * ten_to(MAX_PLACES as nat) == 0) by (nonlinear_arith);
    }
    while i < open_orders.len()
        invariant
            i <= open_orders@.len(),
            sum == reserved(open_orders@, is_buy, i as int),
            exact == reserved_exactly(open_orders@, is_buy, open_orders@.len() as int) is Some,
            exact ==> sum == reserved_exactly(open_orders@, is_buy, i as int) && sum is Some
                && sum->0.valid() && value_of(sum->0) == reserved_value(
                open_orders@.take(i as int),
                is_buy,
            ),
        decreases open_orders@.len() - i,
    {
        proof {
            if exact {
                exact_prefix(open_orders@, is_buy, i as int + 1, open_orders@.len() as int);
            }
        }
        let other = open_orders[i];
        proof {
            let shorter = open_orders@.take(i + 1);
            assert(shorter.drop_last() =~= open_orders@.take(i as int));
            assert(shorter.last() == other);
            use_type_invariant(&other.leaves_qty);
            if exact && other.is_buy == is_buy {
                let total = reserved_exactly(open_orders@, is_buy, i + 1)->0;
                sum_value(sum->0, other.leaves_qty, total, MAX_PLACES as nat);
            }
        }
        if other.is_buy == is_buy {
            sum = match sum {
                None => None,
                Some(s) => s.checked_add(other.leaves_qty),
            };
        }
        i = i + 1;
    }
    assert(open_orders@.take(open_orders@.len() as int) =~= open_orders@);
    sum
}

/// Refuses an order for its quantity; the outer `None` says that a number does not fit.
fn check_quantity(order: &PendingOrder, position: Dec, open_orders: &[OpenOrderView]) -> (r: Option<
    Option<String>,
>)
    ensures
        match r {
            None => quantity_rule(*order, position, open_orders@) is Unfit,
            Some(None) => quantity_rule(*order, position, open_orders@) is Clear,
            Some(Some(s)) => quantity_rule(*order, position, open_orders@) == Wash::Refused(s@),
        },
        values_decide_quantity(*order, position, open_orders@),
{
    let signed = if order.is_buy {
        position.neg()
    } else {
        position
    };
    let held = if signed.is_positive() {
        signed
    } else {
        Dec::zero()
    };
    if order.is_buy && !held.is_positive() {
        return Some(None);
    }
    let held_back = match add_reserved(open_orders, order.is_buy) {
        None => return None,
        Some(s) => s,
    };
    proof {
        use_type_invariant(&held);
        use_type_invariant(&order.quantity);
        if let Some(free) = free_exactly(*order, position, open_orders@) {
            difference_value(held, held_back, free, MAX_PLACES as nat);
            below_at(free, order.quantity, MAX_PLACES as nat);
        }
    }
    let available = match held.checked_sub(held_back) {
        None => return None,
        Some(a) => a,
    };
    if !available.less_than(order.quantity) {
        return Some(None);
    }
    if order.is_buy {
        Some(
            Some(
                "would buy ".to_owned().concat(order.quantity.text().as_str()).concat(
                    " share(s) to cover a ",
                ).concat(held.text().as_str()).concat(" short but only ").concat(
                    available.text().as_str(),
                ).concat(" available (").concat(held_back.text().as_str()).concat(
                    " reserved by open buys) — Alpaca rejects this as flipping long while short",
                ),
            ),
        )
    } else {
        Some(
            Some(
                "would sell ".to_owned().concat(order.quantity.text().as_str()).concat(
                    " share(s) but only ",
                ).concat(available.text().as_str()).concat(" available (position ").concat(
                    position.text().as_str(),
                ).concat(", ").concat(held_back.text().as_str()).concat(
                    " reserved by open sells) — Alpaca rejects this as an uncovered short / insufficient qty",
                ),
            ),
        )
    }
}

/// Refuses a limit order that would trade with an own resting limit order.
fn check_cross(is_buy: bool, px: Dec, open_orders: &[OpenOrderView]) -> (r: Option<String>)
    ensures
        match (r, first_cross(is_buy, px, open_orders@, 0)) {
            (None, None) => true,
            (Some(s), Some(other)) => s@ == cross_reason(px, other),
            _ => false,
        },
{
    let mut i: usize = 0;
    while i < open_orders.len()
        invariant
            i <= open_orders@.len(),
            first_cross(is_buy, px, open_orders@, 0) == first_cross(
                is_buy,
                px,
                open_orders@,
                i as int,
            ),
        decreases open_orders@.len() - i,
    {
        let other = open_orders[i];
        if other.is_buy != is_buy {
            if let Some(other_px) = other.limit_price {
                let hit = if is_buy {
                    !px.less_than(other_px)
                } else {
                    !other_px.less_than(px)
                };
                if hit {
                    let side = if other.is_buy {
                        "buy"
                    } else {
                        "sell"
                    };
                    return Some(
                        "limit ".to_owned().concat(px.text().as_str()).concat(
                            " would cross own resting ",
                        ).concat(side).concat(" limit ").concat(other_px.text().as_str()).concat(
                            " — Alpaca rejects this as a potential wash trade (use complex/limit/stop-limit)",
                        ),
                    );
                }
            }
        }
        i = i + 1;
    }
    None
}

/// Says whether the broker would reject `order`; the outer `None` says that a number on the way
/// does not fit in a decimal.
pub fn try_check_wash_trade(
    order: &PendingOrder,
    position_net_qty: Dec,
    open_orders: &[OpenOrderView],
) -> (r: Option<Option<String>>)
    ensures
        match r {
            None => wash(*order, position_net_qty, open_orders@) is Unfit,
            Some(None) => wash(*order, position_net_qty, open_orders@) is Clear,
            Some(Some(s)) => wash(*order, position_net_qty, open_orders@) == Wash::Refused(s@),
        },
        values_decide(*order, position_net_qty, open_orders@),
{
    proof {
        if let Some(px) = order.limit_price {
            no_cross_from(order.is_buy, px, open_orders@, 0);
        }
    }
    match check_quantity(order, position_net_qty, open_orders) {
        None => None,
        Some(Some(reason)) => Some(Some(reason)),
        Some(None) => match order.limit_price {
            None => Some(None),
            Some(px) => Some(check_cross(order.is_buy, px, open_orders)),
        },
    }
}

/// Says why the broker would reject `order`, given the signed net position and the open orders on
/// the symbol; `None` where it would not. The sums of the open quantities have to fit in a
/// decimal; [`try_check_wash_trade`] says whether that is so.
pub fn check_wash_trade(
    order: &PendingOrder,
    position_net_qty: Dec,
    open_orders: &[OpenOrderView],
) -> (r: Option<String>)
    requires
        wash(*order, position_net_qty, open_orders@) !is Unfit,
    ensures
        match r {
            None => wash(*order, position_net_qty, open_orders@) is Clear,
            Some(s) => wash(*order, position_net_qty, open_orders@) == Wash::Refused(s@),
        },
        values_decide(*order, position_net_qty, open_orders@),
{
    try_check_wash_trade(order, position_net_qty, open_orders).unwrap()
}

// ----- laws -----

proof fn no_cross_from(is_buy: bool, px: Dec, open: Seq<OpenOrderView>, i: int)
    requires
        0 <= i <= open.len(),
    ensures
        first_cross(is_buy, px, open, i) is None <==> forall|k: int|
            i <= k < open.len() ==> !crosses(is_buy, px, #[trigger] open[k]),
        first_cross(is_buy, px, open, i) matches Some(other) ==> exists|k: int|
            i <= k < open.len() && open[k] == other && crosses(is_buy, px, other) && forall|j: int|
                i <= j < k ==> !crosses(is_buy, px, #[trigger] open[j]),
    decreases open.len() - i,
{
    if i < open.len() {
        no_cross_from(is_buy, px, open, i + 1);
        if crosses(is_buy, px, open[i]) {
            assert(first_cross(is_buy, px, open, i) == Some(open[i]));
        } else if first_cross(is_buy, px, open, i + 1) is Some {
            let other = first_cross(is_buy, px, open, i + 1)->0;
            let k = choose|k: int|
                i + 1 <= k < open.len() && open[k] == other && crosses(is_buy, px, other) && forall|
                    j: int,
                |
                    i + 1 <= j < k ==> !crosses(is_buy, px, #[trigger] open[j]);
            assert(open[k] == other);
            assert forall|j: int| i <= j < k implies !crosses(is_buy, px, #[trigger] open[j]) by {}
        }
    }
}

/// An order that may go would not trade with any own open order.
pub proof fn clear_orders_cross_nothing(
    order: PendingOrder,
    position: Dec,
    open: Seq<OpenOrderView>,
    px: Dec,
    k: int,
)
    requires
        wash(order, position, open) is Clear,
        order.limit_price == Some(px),
        0 <= k < open.len(),
    ensures
        !crosses(order.is_buy, px, open[k]),
{
    no_cross_from(order.is_buy, px, open, 0);
}

/// A limit order whose quantity is in order is refused exactly when it would trade with some own
/// open order.
pub proof fn crossing_orders_are_refused(
    order: PendingOrder,
    position: Dec,
    open: Seq<OpenOrderView>,
    px: Dec,
)
    requires
        quantity_rule(order, position, open) is Clear,
        order.limit_price == Some(px),
    ensures
        wash(order, position, open) is Refused <==> exists|k: int|
            0 <= k < open.len() && crosses(order.is_buy, px, #[trigger] open[k]),
{
    no_cross_from(order.is_buy, px, open, 0);
    if wash(order, position, open) is Refused {
        let other = first_cross(order.is_buy, px, open, 0)->0;
        let k = choose|k: int|
            0 <= k < open.len() && open[k] == other && crosses(order.is_buy, px, other) && forall|
                j: int,
            |
                0 <= j < k ==> !crosses(order.is_buy, px, #[trigger] open[j]);
        assert(crosses(order.is_buy, px, open[k]));
    }
}

/// Where an order's quantity is in order, the prices decide: a limit purchase is refused exactly
/// when its price is at or above that of some open limit sale, a limit sale exactly when its price
/// is at or below that of some open limit purchase. An order without a limit price is not refused.
pub proof fn meeting_prices_are_refused(
    order: PendingOrder,
    position: Dec,
    open: Seq<OpenOrderView>,
)
    requires
        quantity_rule(order, position, open) is Clear,
        prices_are_valid(order, open),
    ensures
        wash(order, position, open) !is Unfit,
        wash(order, position, open) is Refused <==> {
            &&& order.limit_price is Some
            &&& exists|k: int|
                0 <= k < open.len() && meets(
                    order.is_buy,
                    aligned(order.limit_price->0, MAX_PLACES as nat),
                    #[trigger] open[k],
                )
        },
{
    if let Some(px) = order.limit_price {
        let value = aligned(px, MAX_PLACES as nat);
        crossing_orders_are_refused(order, position, open, px);
        assert forall|k: int| 0 <= k < open.len() implies crosses(
            order.is_buy,
            px,
            #[trigger] open[k],
        ) == meets(order.is_buy, value, open[k]) by {
            if let Some(other_px) = open[k].limit_price {
                below_at(px, other_px, MAX_PLACES as nat);
                below_at(other_px, px, MAX_PLACES as nat);
            }
        }
    }
}

/// Whether the limit price of an open order is one that an order of the other side at `value`
/// would trade at, both in units of the last place that a number can have.
pub open spec fn meets(is_buy: bool, value: int, other: OpenOrderView) -> bool {
    other.limit_price matches Some(other_px) && {
        ||| is_buy && !other.is_buy && aligned(other_px, MAX_PLACES as nat) <= value
        ||| !is_buy && other.is_buy && value <= aligned(other_px, MAX_PLACES as nat)
    }
}

/// Whether the limit prices are numbers.
pub open spec fn prices_are_valid(order: PendingOrder, open: Seq<OpenOrderView>) -> bool {
    &&& order.limit_price matches Some(px) ==> px.valid()
    &&& forall|k: int|
        0 <= k < open.len() ==> ((#[trigger] open[k]).limit_price matches Some(px) ==> px.valid())
}

/// A purchase that is refused for meeting an own sale is refused at every higher price too, and a
/// sale that is refused for meeting an own purchase at every lower one.
pub proof fn better_prices_are_refused_too(
    order: PendingOrder,
    bolder: PendingOrder,
    position: Dec,
    open: Seq<OpenOrderView>,
    px: Dec,
    bolder_px: Dec,
)
    requires
        quantity_rule(order, position, open) is Clear,
        wash(order, position, open) is Refused,
        prices_are_valid(order, open),
        prices_are_valid(bolder, open),
        order.limit_price == Some(px),
        bolder.limit_price == Some(bolder_px),
        bolder.is_buy == order.is_buy,
        bolder.quantity == order.quantity,
        order.is_buy ==> !below(bolder_px, px),
        !order.is_buy ==> !below(px, bolder_px),
    ensures
        wash(bolder, position, open) is Refused,
{
    let s = MAX_PLACES as nat;
    meeting_prices_are_refused(order, position, open);
    meeting_prices_are_refused(bolder, position, open);
    below_at(bolder_px, px, s);
    below_at(px, bolder_px, s);
    let k = choose|k: int|
        0 <= k < open.len() && meets(order.is_buy, aligned(px, s), #[trigger] open[k]);
    assert(meets(bolder.is_buy, aligned(bolder_px, s), open[k]));
}

/// The shares left on the open orders of one side.
pub open spec fn shares_left(open: Seq<OpenOrderView>, is_buy: bool) -> int
    decreases open.len(),
{
    if open.len() == 0 {
        0
    } else if open.last().is_buy == is_buy {
        shares_left(open.drop_last(), is_buy) + open.last().leaves_qty.units()
    } else {
        shares_left(open.drop_last(), is_buy)
    }
}

proof fn whole_shares_add_up(open: Seq<OpenOrderView>, is_buy: bool, n: int)
    requires
        0 <= n <= open.len(),
        forall|k: int|
            0 <= k < open.len() ==> (#[trigger] open[k]).leaves_qty.places() == 0 && 0
                <= open[k].leaves_qty.units(),
        shares_left(open.take(n), is_buy) < UNITS_END,
    ensures
        reserved_exactly(open, is_buy, n) == Some(Dec::of(shares_left(open.take(n), is_buy), 0)),
        0 <= shares_left(open.take(n), is_buy),
    decreases n,
{
    broadcast use {dec_parts, dec_same};

    if n > 0 {
        let shorter = open.take(n - 1);
        let longer = open.take(n);
        assert(longer.drop_last() =~= shorter);
        assert(longer.last() == open[n - 1]);
        whole_shares_add_up(open, is_buy, n - 1);
        let left = open[n - 1].leaves_qty;
        lemma_pow0(10);
        if open[n - 1].is_buy == is_buy {
            let before = Dec::of(shares_left(shorter, is_buy), 0);
            let x = before.units();
            let y = left.units();
            assert(x == shares_left(shorter, is_buy) && before.places() == 0);
            assert(aligned(before, 0) == x);
            assert(aligned(left, 0) == y);
            assert(sum_in_range(before, left)->0.units() == x + y);
        }
    }
}

/// The quantity rule on whole shares: a sale is refused exactly when it is for more than the shares
/// held long that no open sale is waiting to sell; a purchase exactly when the position is short
/// and it is for more than the shares short that no open purchase is waiting to cover. (The order
/// has no limit price, so that the prices decide nothing.)
pub proof fn whole_shares_decide(order: PendingOrder, position: Dec, open: Seq<OpenOrderView>)
    requires
        values_decide(order, position, open),
        order.limit_price is None,
        order.quantity.valid(),
        order.quantity.places() == 0,
        position.valid(),
        position.places() == 0,
        forall|k: int|
            0 <= k < open.len() ==> (#[trigger] open[k]).leaves_qty.places() == 0 && 0
                <= open[k].leaves_qty.units(),
        shares_left(open, order.is_buy) < UNITS_END,
    ensures
        ({
            let free = shares_left(open, order.is_buy);
            let held = position.units();
            &&& wash(order, position, open) !is Unfit
            &&& wash(order, position, open) is Refused <==> if order.is_buy {
                held < 0 && order.quantity.units() > -held - free
            } else {
                order.quantity.units() > (if held > 0 {
                    held
                } else {
                    0
                }) - free
            }
        }),
{
    broadcast use {dec_parts, dec_same};

    let n = open.len() as int;
    assert(open.take(n) =~= open);
    whole_shares_add_up(open, order.is_buy, n);
    let left = shares_left(open, order.is_buy);
    let held_back = Dec::of(left, 0);
    let held = held_against(order, position);
    aligned_negated(position, 0);
    lemma_pow0(10);
    assert(aligned(held, 0) == held.units());
    assert(aligned(held_back, 0) == held_back.units());
    assert(difference_in_range(held, held_back) is Some);
    let free = difference_in_range(held, held_back)->0;
    assert(free.units() == held.units() - left && free.places() == 0);
    assert(aligned(free, 0) == free.units());
    assert(aligned(order.quantity, 0) == order.quantity.units());
    below_at(free, order.quantity, 0);
}

/// A sale that may go is covered: it is at most the long position less what open sells reserve.
pub proof fn clear_sales_are_covered(order: PendingOrder, position: Dec, open: Seq<OpenOrderView>)
    requires
        !order.is_buy,
        wash(order, position, open) is Clear,
    ensures
        ({
            &&& reserved(open, false, open.len() as int) matches Some(held_back)
            &&& decimal_difference(at_least_zero(position), held_back) matches Some(available)
            &&& !below(available, order.quantity)
        }),
{
}

/// A purchase while not short, with no sell limit resting, may always go.
pub proof fn plain_purchases_are_clear(
    order: PendingOrder,
    position: Dec,
    open: Seq<OpenOrderView>,
)
    requires
        order.is_buy,
        position.valid(),
        position.units() >= 0,
        forall|k: int|
            0 <= k < open.len() ==> (#[trigger] open[k]).is_buy || open[k].limit_price is None,
    ensures
        wash(order, position, open) is Clear,
{
    broadcast use dec_parts;

    aligned_negated(position, position.places());
    if let Some(px) = order.limit_price {
        no_cross_from(true, px, open, 0);
    }
}

/// Taking an open order away takes its part away from what is reserved.
proof fn reserved_without(open: Seq<OpenOrderView>, is_buy: bool, i: int)
    requires
        0 <= i < open.len(),
    ensures
        reserved_value(open, is_buy) == reserved_value(open.remove(i), is_buy) + side_value(
            open[i],
            is_buy,
        ),
    decreases open.len(),
{
    let rest = open.remove(i);
    if i == open.len() - 1 {
        assert(rest =~= open.drop_last());
    } else {
        let shorter = open.drop_last();
        reserved_without(shorter, is_buy, i);
        assert(rest.drop_last() =~= shorter.remove(i));
        assert(rest.last() == open.last());
    }
}

proof fn nothing_reserved_is_negative(open: Seq<OpenOrderView>, is_buy: bool)
    requires
        forall|k: int| 0 <= k < open.len() ==> (#[trigger] open[k]).leaves_qty.units() >= 0,
    ensures
        reserved_value(open, is_buy) >= 0,
    decreases open.len(),
{
    if open.len() > 0 {
        let shorter = open.drop_last();
        assert forall|k: int| 0 <= k < shorter.len() implies (
        #[trigger] shorter[k]).leaves_qty.units() >= 0 by {
            assert(shorter[k] == open[k]);
        }
        nothing_reserved_is_negative(shorter, is_buy);
        let last = open[open.len() - 1].leaves_qty;
        let places = (MAX_PLACES - last.places()) as nat;
        lemma_pow_positive(10, places);
        let u = last.units();
        let t = ten_to(places);
        assert(u >= 0 && t > 0 ==> u * t >= 0) by (nonlinear_arith);
    }
}

proof fn more_orders_reserve_more(a: Seq<OpenOrderView>, b: Seq<OpenOrderView>, is_buy: bool)
    requires
        forall|k: int| 0 <= k < b.len() ==> (#[trigger] b[k]).leaves_qty.units() >= 0,
        a.to_multiset().subset_of(b.to_multiset()),
    ensures
        reserved_value(a, is_buy) <= reserved_value(b, is_buy),
    decreases a.len(),
{
    a.to_multiset_ensures();
    b.to_multiset_ensures();
    if a.len() == 0 {
        nothing_reserved_is_negative(b, is_buy);
    } else {
        let last = a.last();
        let shorter = a.drop_last();
        assert(a.contains(last)) by {
            assert(a[a.len() - 1] == last);
        }
        assert(a.to_multiset().count(last) > 0);
        assert(b.to_multiset().count(last) > 0);
        assert(b.contains(last));
        let i = choose|i: int| 0 <= i < b.len() && b[i] == last;
        let rest = b.remove(i);
        assert(shorter =~= a.remove(a.len() - 1));
        assert(shorter.to_multiset() =~= a.to_multiset().remove(last));
        assert(rest.to_multiset() =~= b.to_multiset().remove(last));
        assert(shorter.to_multiset().subset_of(rest.to_multiset()));
        assert forall|k: int| 0 <= k < rest.len() implies (#[trigger] rest[k]).leaves_qty.units()
            >= 0 by {
            assert(rest[k] == if k < i {
                b[k]
            } else {
                b[k + 1]
            });
        }
        more_orders_reserve_more(shorter, rest, is_buy);
        reserved_without(b, is_buy, i);
    }
}

/// A further open order never clears an order that would be rejected: where `b` holds every open
/// order of `a`, in whatever order, what would be rejected with `a` would be with `b`.
pub proof fn further_orders_clear_nothing(
    order: PendingOrder,
    position: Dec,
    a: Seq<OpenOrderView>,
    b: Seq<OpenOrderView>,
)
    requires
        forall|k: int| 0 <= k < b.len() ==> (#[trigger] b[k]).leaves_qty.units() >= 0,
        a.to_multiset().subset_of(b.to_multiset()),
        would_be_rejected(order, position, a),
    ensures
        would_be_rejected(order, position, b),
{
    more_orders_reserve_more(a, b, order.is_buy);
    if crosses_some(order, a) {
        a.to_multiset_ensures();
        b.to_multiset_ensures();
        let px = order.limit_price->0;
        let k = choose|k: int| 0 <= k < a.len() && crosses(order.is_buy, px, #[trigger] a[k]);
        let other = a[k];
        assert(a.contains(other));
        assert(a.to_multiset().count(other) > 0);
        assert(b.to_multiset().count(other) > 0);
        assert(b.contains(other));
        let i = choose|i: int| 0 <= i < b.len() && b[i] == other;
        assert(crosses(order.is_buy, px, b[i]));
    }
}

/// The order in which the open orders come does not matter.
pub proof fn order_of_open_orders_does_not_matter(
    order: PendingOrder,
    position: Dec,
    a: Seq<OpenOrderView>,
    b: Seq<OpenOrderView>,
)
    requires
        forall|k: int| 0 <= k < b.len() ==> (#[trigger] b[k]).leaves_qty.units() >= 0,
        a.to_multiset() == b.to_multiset(),
    ensures
        would_be_rejected(order, position, a) <==> would_be_rejected(order, position, b),
{
    assert forall|k: int| 0 <= k < a.len() implies (#[trigger] a[k]).leaves_qty.units() >= 0 by {
        a.to_multiset_ensures();
        b.to_multiset_ensures();
        assert(a.contains(a[k]));
        assert(a.to_multiset().count(a[k]) > 0);
        assert(b.contains(a[k]));
    }
    if would_be_rejected(order, position, a) {
        further_orders_clear_nothing(order, position, a, b);
    }
    if would_be_rejected(order, position, b) {
        further_orders_clear_nothing(order, position, b, a);
    }
}

/// A refusal says why: a sale how much it asks for, how much is free, the position and what open
/// sales wait to sell; a purchase how much it asks for, the shares short, how much of them is free
/// and what open purchases wait to cover; an order that would trade with an own one both prices and
/// the side of the other, which is the first such order.
pub proof fn refusals_say_why(
    order: PendingOrder,
    position: Dec,
    open: Seq<OpenOrderView>,
    held_back: Dec,
    available: Dec,
    px: Dec,
    k: int,
    other_px: Dec,
)
    requires
        position.valid(),
    ensures
        !order.is_buy && position.units() > 0 && reserved(open, false, open.len() as int) == Some(
            held_back,
        ) && decimal_difference(position, held_back) == Some(available) && below(
            available,
            order.quantity,
        ) ==> wash(order, position, open) == Wash::Refused(
            "would sell "@ + decimal_text(order.quantity) + " share(s) but only "@ + decimal_text(
                available,
            ) + " available (position "@ + decimal_text(position) + ", "@ + decimal_text(held_back)
                + " reserved by open sells) — Alpaca rejects this as an uncovered short / insufficient qty"@,
        ),
        order.is_buy && position.units() < 0 && reserved(open, true, open.len() as int) == Some(
            held_back,
        ) && decimal_difference(position.negated(), held_back) == Some(available) && below(
            available,
            order.quantity,
        ) ==> wash(order, position, open) == Wash::Refused(
            "would buy "@ + decimal_text(order.quantity) + " share(s) to cover a "@ + decimal_text(
                position.negated(),
            ) + " short but only "@ + decimal_text(available) + " available ("@ + decimal_text(
                held_back,
            )
                + " reserved by open buys) — Alpaca rejects this as flipping long while short"@,
        ),
        quantity_rule(order, position, open) is Clear && order.limit_price == Some(px) && 0 <= k
            < open.len() && open[k].limit_price == Some(other_px) && crosses(
            order.is_buy,
            px,
            open[k],
        ) && (forall|j: int| 0 <= j < k ==> !crosses(order.is_buy, px, #[trigger] open[j])) ==> wash(
            order,
            position,
            open,
        ) == Wash::Refused(
            "limit "@ + decimal_text(px) + " would cross own resting "@ + (if order.is_buy {
                "sell"@
            } else {
                "buy"@
            }) + " limit "@ + decimal_text(other_px)
                + " — Alpaca rejects this as a potential wash trade (use complex/limit/stop-limit)"@,
        ),
{
    aligned_negated(position, position.places());
    if quantity_rule(order, position, open) is Clear && order.limit_price == Some(px) && 0 <= k
        < open.len() && crosses(order.is_buy, px, open[k]) && (forall|j: int|
        0 <= j < k ==> !crosses(order.is_buy, px, #[trigger] open[j])) {
        first_crossing(order.is_buy, px, open, k, 0);
    }
}

proof fn first_crossing(is_buy: bool, px: Dec, open: Seq<OpenOrderView>, k: int, i: int)
    requires
        0 <= i <= k < open.len(),
        crosses(is_buy, px, open[k]),
        forall|j: int| 0 <= j < k ==> !crosses(is_buy, px, #[trigger] open[j]),
    ensures
        first_cross(is_buy, px, open, i) == Some(open[k]),
    decreases k - i,
{
    if i < k {
        first_crossing(is_buy, px, open, k, i + 1);
    }
}

} // verus!
