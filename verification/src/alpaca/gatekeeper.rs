//! The pre-trade risk gatekeeper: the last check of an order against our own risk limits.
//!
//! - Exposure rules apply only to orders that increase the magnitude of the symbol's position. An
//!   exit is never held back by them. The per-order caps apply to every order.
//! - A market order that is an entry is denied unless market entries are allowed.
//! - Where a rule cannot be evaluated (no equity, no price), the entry is denied.
//! - The first rule that is breached gives the reason.

use vstd::prelude::*;

use crate::decimal::{
    aligned, aligned_absolute, aligned_keeps_sign, aligned_negated, below, below_at, below_chain,
    common_places, dec_parts, decimal_difference, decimal_product, decimal_quotient, decimal_sum,
    decimal_text, decimal_text_tenths, difference_in_range, difference_value, divides_exactly,
    is_quotient, magnitude, product_in_range, product_value, quotients_agree, sum_in_range,
    sum_value, Dec, MAX_PLACES,
};
use crate::model::{Money, OrderSide, OrderType};
use crate::text::{lowered, only_white_is_trimmed, same_text, trim, trimmed, white_space};

verus! {

/// The variable that sets [`GatekeeperLimits::max_order_shares`].
pub const ENV_MAX_ORDER_SHARES: &'static str = "ALPACA_GATE_MAX_ORDER_SHARES";

/// The variable that sets [`GatekeeperLimits::max_order_notional`].
pub const ENV_MAX_ORDER_NOTIONAL: &'static str = "ALPACA_GATE_MAX_ORDER_NOTIONAL";

/// The variable that sets [`GatekeeperLimits::max_position_pct`].
pub const ENV_MAX_POSITION_PCT: &'static str = "ALPACA_GATE_MAX_POSITION_PCT";

/// The variable that sets [`GatekeeperLimits::max_gross_exposure_pct`].
pub const ENV_MAX_GROSS_EXPOSURE_PCT: &'static str = "ALPACA_GATE_MAX_GROSS_EXPOSURE_PCT";

/// The variable that sets [`GatekeeperLimits::allow_market_orders`].
pub const ENV_ALLOW_MARKET_ORDERS: &'static str = "ALPACA_GATE_ALLOW_MARKET_ORDERS";

/// A configured limit.
#[derive(Clone, Debug, PartialEq)]
pub struct Cap {
    /// The limit itself; a percentage is held as a fraction (0.25 for 25%).
    pub limit: Dec,
    /// The limit as reasons show it; a percentage is shown as a percent number.
    pub shown: String,
}

/// Risk limits. An absent cap disables its rule.
#[derive(Clone, Debug, PartialEq)]
pub struct GatekeeperLimits {
    /// Most shares on any single order, entries and exits alike.
    pub max_order_shares: Option<Cap>,
    /// Most notional (quantity times price) on any single order, entries and exits alike.
    pub max_order_notional: Option<Cap>,
    /// Most of the account's equity, as a fraction, that one symbol's position may reach.
    pub max_position_pct: Option<Cap>,
    /// Most of the account's equity, as a fraction, that total gross exposure may reach.
    pub max_gross_exposure_pct: Option<Cap>,
    /// Whether market orders may be entries. Market exits are always allowed.
    pub allow_market_orders: bool,
}

impl Default for GatekeeperLimits {
    /// No numeric caps, and no market entries.
    fn default() -> (r: GatekeeperLimits)
        ensures
            r.max_order_shares is None,
            r.max_order_notional is None,
            r.max_position_pct is None,
            r.max_gross_exposure_pct is None,
            !r.allow_market_orders,
    {
        GatekeeperLimits {
            max_order_shares: None,
            max_order_notional: None,
            max_position_pct: None,
            max_gross_exposure_pct: None,
            allow_market_orders: false,
        }
    }
}

impl GatekeeperLimits {
    /// Whether no cap is configured and market entries are allowed.
    pub open spec fn passes_everything(self) -> bool {
        &&& self.max_order_shares is None
        &&& self.max_order_notional is None
        &&& self.max_position_pct is None
        &&& self.max_gross_exposure_pct is None
        &&& self.allow_market_orders
    }

    /// Whether a rule is configured that compares with equity.
    pub open spec fn needs_equity(self) -> bool {
        self.max_position_pct is Some || self.max_gross_exposure_pct is Some
    }

    /// Whether a rule is configured that needs a price.
    pub open spec fn needs_price(self) -> bool {
        self.max_order_notional is Some || self.needs_equity()
    }

    /// Whether the gatekeeper would never deny anything.
    pub fn is_empty(&self) -> (r: bool)
        ensures
            r == self.passes_everything(),
    {
        self.max_order_shares.is_none() && self.max_order_notional.is_none()
            && self.max_position_pct.is_none() && self.max_gross_exposure_pct.is_none()
            && self.allow_market_orders
    }

    /// Whether a configured rule needs account equity.
    pub fn requires_equity(&self) -> (r: bool)
        ensures
            r == self.needs_equity(),
    {
        self.max_position_pct.is_some() || self.max_gross_exposure_pct.is_some()
    }
}

/// The order under evaluation.
#[derive(Clone, Copy, Debug, PartialEq)]
pub struct OrderInfo {
    /// Buy or sell.
    pub side: OrderSide,
    /// The order's type.
    pub order_type: OrderType,
    /// The quantity in shares.
    pub quantity: Dec,
    /// The limit price, if the order has one.
    pub limit_price: Option<Dec>,
    /// The price at decision time; values an order that has no limit price.
    pub reference_price: Option<Dec>,
}

impl OrderInfo {
    /// What the order adds to the net position: a purchase its quantity, a sale its negation.
    pub open spec fn signed(self) -> Dec {
        match self.side {
            OrderSide::Buy => self.quantity,
            OrderSide::Sell => self.quantity.negated(),
            OrderSide::NoOrderSide => Dec::nought(),
        }
    }

    /// The limit price, else the reference price.
    pub open spec fn price(self) -> Option<Dec> {
        match self.limit_price {
            Some(px) => Some(px),
            None => self.reference_price,
        }
    }

    /// What the order adds to the net position.
    pub fn signed_qty(&self) -> (r: Dec)
        ensures
            r == self.signed(),
    {
        match self.side {
            OrderSide::Buy => self.quantity,
            OrderSide::Sell => self.quantity.neg(),
            OrderSide::NoOrderSide => Dec::zero(),
        }
    }

    /// The price to value the order at, if it has one.
    pub fn valuation_price(&self) -> (r: Option<Dec>)
        ensures
            r == self.price(),
    {
        match self.limit_price {
            Some(px) => Some(px),
            None => self.reference_price,
        }
    }
}

/// The state of the account that the rules need.
#[derive(Clone, Debug, PartialEq)]
pub struct AccountInfo {
    /// The account's equity, once it is known.
    pub equity: Option<Money>,
    /// The signed net quantity held of the order's symbol.
    pub symbol_net_qty: Dec,
    /// The average entry price of that position; zero if flat.
    pub symbol_avg_px: Dec,
    /// Gross exposure over all symbols, at cost.
    pub total_gross_exposure: Dec,
}

/// The gatekeeper's verdict.
#[derive(Clone, Debug, PartialEq, Eq)]
pub enum Decision {
    /// The order may proceed.
    Allow,
    /// The order is refused.
    Deny {
        /// Why.
        reason: String,
    },
}

/// A verdict with its reason as a sequence of characters.
pub enum Verdict {
    /// The order may proceed.
    Allow,
    /// The order is refused for this reason.
    Deny(Seq<char>),
}

impl View for Decision {
    type V = Verdict;

    open spec fn view(&self) -> Verdict {
        match self {
            Decision::Allow => Verdict::Allow,
            Decision::Deny { reason } => Verdict::Deny(reason@),
        }
    }
}

impl Decision {
    /// Whether the order may proceed.
    pub fn is_allowed(&self) -> (r: bool)
        ensures
            r == (self@ is Allow),
    {
        match self {
            Decision::Allow => true,
            Decision::Deny { .. } => false,
        }
    }
}

/// A denial for `reason`.
pub fn deny(reason: String) -> (r: Decision)
    ensures
        r@ == Verdict::Deny(reason@),
{
    Decision::Deny { reason }
}

// ----- per-order caps -----

/// What is said of an order with more shares than `cap`.
pub open spec fn shares_reason(quantity: Dec, cap: Cap) -> Seq<char> {
    "order quantity "@ + decimal_text(quantity) + " > "@ + ENV_MAX_ORDER_SHARES@ + " ("@
        + cap.shown@ + ")"@
}

/// The denial of an order with more shares than the cap.
pub open spec fn shares_breach(order: OrderInfo, limits: GatekeeperLimits) -> Option<Seq<char>> {
    match limits.max_order_shares {
        Some(cap) if below(cap.limit, order.quantity) => Some(shares_reason(order.quantity, cap)),
        _ => None,
    }
}

/// What is said of an order worth more than `cap`.
pub open spec fn notional_reason(notional: Dec, cap: Cap) -> Seq<char> {
    "order notional "@ + decimal_text(notional) + " > "@ + ENV_MAX_ORDER_NOTIONAL@ + " ("@
        + cap.shown@ + ")"@
}

/// Denies an order with more shares than the cap.
pub fn check_shares(order: &OrderInfo, limits: &GatekeeperLimits) -> (r: Option<Decision>)
    ensures
        match r {
            Some(d) => shares_breach(*order, *limits) is Some && d@ == Verdict::Deny(
                shares_breach(*order, *limits)->0,
            ),
            None => shares_breach(*order, *limits) is None,
        },
{
    if let Some(cap) = &limits.max_order_shares {
        if cap.limit.less_than(order.quantity) {
            return Some(
                deny(
                    "order quantity ".to_owned().concat(order.quantity.text().as_str()).concat(
                        " > ",
                    ).concat(ENV_MAX_ORDER_SHARES).concat(" (").concat(cap.shown.as_str()).concat(
                        ")",
                    ),
                ),
            );
        }
    }
    None
}

/// Denies an order whose notional is `notional` where that is more than `cap`.
pub fn check_notional(notional: Dec, cap: &Cap) -> (r: Option<Decision>)
    ensures
        r is Some <==> below(cap.limit, notional),
        r matches Some(d) ==> d@ == Verdict::Deny(notional_reason(notional, *cap)),
{
    if cap.limit.less_than(notional) {
        Some(
            deny(
                "order notional ".to_owned().concat(notional.text().as_str()).concat(" > ").concat(
                    ENV_MAX_ORDER_NOTIONAL,
                ).concat(" (").concat(cap.shown.as_str()).concat(")"),
            ),
        )
    } else {
        None
    }
}

// ----- entries -----

/// Whether a net position that goes from `net` to `resulting` grows in magnitude.
pub open spec fn grows(net: Dec, resulting: Dec) -> bool {
    below(net.absolute(), resulting.absolute())
}

/// Whether a net position that goes from `net` to `resulting` grows in magnitude.
pub fn grows_to(net: Dec, resulting: Dec) -> (r: bool)
    ensures
        r == grows(net, resulting),
{
    net.abs().less_than(resulting.abs())
}

/// Whether `order` increases the magnitude of the symbol's net position: it is an entry.
///
/// The sum of the two quantities has to fit in a decimal.
pub fn is_increasing(order: &OrderInfo, symbol_net_qty: Dec) -> (r: bool)
    requires
        decimal_sum(symbol_net_qty, order.signed()) is Some,
    ensures
        r == grows(symbol_net_qty, decimal_sum(symbol_net_qty, order.signed())->0),
        sum_in_range(symbol_net_qty, order.signed()) matches Some(resulting) ==> r == grows(
            symbol_net_qty,
            resulting,
        ),
{
    let resulting = symbol_net_qty.checked_add(order.signed_qty()).unwrap();
    grows_to(symbol_net_qty, resulting)
}

/// Whether `order` is an entry, where the resulting position fits in a decimal.
pub fn try_is_increasing(order: &OrderInfo, symbol_net_qty: Dec) -> (r: Option<bool>)
    ensures
        r == match decimal_sum(symbol_net_qty, order.signed()) {
            Some(resulting) => Some(grows(symbol_net_qty, resulting)),
            None => None,
        },
        sum_in_range(symbol_net_qty, order.signed()) is Some ==> decimal_sum(
            symbol_net_qty,
            order.signed(),
        ) == sum_in_range(symbol_net_qty, order.signed()),
{
    match symbol_net_qty.checked_add(order.signed_qty()) {
        Some(_) => Some(is_increasing(order, symbol_net_qty)),
        None => None,
    }
}

/// What is said of a market order that is an entry.
pub open spec fn market_entry_reason() -> Seq<char> {
    "market orders not permitted for entries (set "@ + ENV_ALLOW_MARKET_ORDERS@
        + "=true to allow; limit entries otherwise)"@
}

/// What is said of an entry while equity is unknown.
pub open spec fn no_equity_reason() -> Seq<char> {
    "account equity not yet primed; denying entry (fail-closed) until connect completes account sync"@
}

/// What is said of an entry that no price can value.
pub open spec fn no_price_reason() -> Seq<char> {
    "entry has no limit or reference price to value against risk limits (set a reference price on MARKET orders, or use a LIMIT entry); rules requiring valuation: "@
        + ENV_MAX_ORDER_NOTIONAL@ + " / "@ + ENV_MAX_POSITION_PCT@ + " / "@
        + ENV_MAX_GROSS_EXPOSURE_PCT@
}

/// The denial of an entry before its value is looked at: a market entry that is not allowed, an
/// equity rule without equity, a rule that needs a price without one.
pub open spec fn entry_breach(
    order: OrderInfo,
    account: AccountInfo,
    limits: GatekeeperLimits,
) -> Option<Seq<char>> {
    if order.order_type == OrderType::Market && !limits.allow_market_orders {
        Some(market_entry_reason())
    } else if limits.needs_equity() && account.equity is None {
        Some(no_equity_reason())
    } else if order.price() is None && limits.needs_price() {
        Some(no_price_reason())
    } else {
        None
    }
}

/// Denies an entry that the rules refuse before its value is looked at.
pub fn check_entry(order: &OrderInfo, account: &AccountInfo, limits: &GatekeeperLimits) -> (r:
    Option<Decision>)
    ensures
        match r {
            Some(d) => entry_breach(*order, *account, *limits) is Some && d@ == Verdict::Deny(
                entry_breach(*order, *account, *limits)->0,
            ),
            None => entry_breach(*order, *account, *limits) is None,
        },
{
    if order.order_type == OrderType::Market && !limits.allow_market_orders {
        return Some(
            deny(
                "market orders not permitted for entries (set ".to_owned().concat(
                    ENV_ALLOW_MARKET_ORDERS,
                ).concat("=true to allow; limit entries otherwise)"),
            ),
        );
    }
    if limits.requires_equity() && account.equity.is_none() {
        return Some(
            deny(
                "account equity not yet primed; denying entry (fail-closed) until connect completes account sync".to_owned(),
            ),
        );
    }
    let needs_valuation = limits.max_order_notional.is_some() || limits.requires_equity();
    if order.valuation_price().is_none() && needs_valuation {
        return Some(
            deny(
                "entry has no limit or reference price to value against risk limits (set a reference price on MARKET orders, or use a LIMIT entry); rules requiring valuation: ".to_owned().concat(
                    ENV_MAX_ORDER_NOTIONAL,
                ).concat(" / ").concat(ENV_MAX_POSITION_PCT).concat(" / ").concat(
                    ENV_MAX_GROSS_EXPOSURE_PCT,
                ),
            ),
        );
    }
    None
}

// ----- shares of equity -----

/// What is said of an entry while equity is zero or less.
pub open spec fn non_positive_equity_reason(equity: Money, env_name: Seq<char>) -> Seq<char> {
    "account equity "@ + equity.shown()
        + " is non-positive; denying entry (fail-closed) for "@ + env_name
}

/// What is said of a value that is too large a share of equity.
pub open spec fn share_reason(
    value: Dec,
    percent: Dec,
    equity: Money,
    cap: Cap,
    env_name: Seq<char>,
    label: Seq<char>,
) -> Seq<char> {
    label + " "@ + decimal_text(value) + " is "@ + decimal_text_tenths(percent) + "% of equity "@
        + equity.shown() + ", exceeds "@ + env_name + " ("@ + cap.shown@ + "%)"@
}

/// What evaluating a rule comes to.
pub enum Finding {
    /// A number that the rule needs does not fit in a decimal.
    Unfit,
    /// The rule is kept.
    Kept,
    /// The rule is breached, for this reason.
    Breach(Seq<char>),
}

/// Whether `value` is at most the share `cap` of `equity`. Equity of zero or less is a breach.
pub open spec fn share_finding(
    value: Dec,
    equity: Money,
    cap: Cap,
    env_name: Seq<char>,
    label: Seq<char>,
) -> Finding {
    if equity.amount.units() <= 0 {
        Finding::Breach(non_positive_equity_reason(equity, env_name))
    } else {
        match decimal_quotient(value, equity.amount) {
            None => Finding::Unfit,
            Some(fraction) => if below(cap.limit, fraction) {
                match decimal_product(fraction, Dec::of(100, 0)) {
                    None => Finding::Unfit,
                    Some(percent) => Finding::Breach(
                        share_reason(value, percent, equity, cap, env_name, label),
                    ),
                }
            } else {
                Finding::Kept
            },
        }
    }
}

/// Whether a finding goes by the exact share of a positive equity, where a decimal is that share:
/// it is a breach exactly when the share is above the cap.
pub open spec fn goes_by_exact_share(
    value: Dec,
    equity: Money,
    cap: Cap,
    finding: Finding,
) -> bool {
    equity.amount.units() > 0 && finding !is Unfit ==> forall|share: Dec|
        share.valid() && #[trigger] is_quotient(value, equity.amount, share) ==> (
        finding is Breach <==> below(cap.limit, share))
}

proof fn exact_shares_decide(
    value: Dec,
    equity: Money,
    cap: Cap,
    env_name: Seq<char>,
    label: Seq<char>,
)
    requires
        divides_exactly(value, equity.amount, decimal_quotient(value, equity.amount)),
    ensures
        goes_by_exact_share(
            value,
            equity,
            cap,
            share_finding(value, equity, cap, env_name, label),
        ),
{
    assert forall|share: Dec|
        equity.amount.units() > 0 && share.valid() && #[trigger] is_quotient(
            value,
            equity.amount,
            share,
        ) implies below(cap.limit, share) <==> below(
        cap.limit,
        decimal_quotient(value, equity.amount)->0,
    ) by {
        let fraction = decimal_quotient(value, equity.amount)->0;
        quotients_agree(value, equity.amount, share, fraction, cap.limit);
    }
}

/// Denies an entry that takes `value`, which is `percent` of `equity`, past `cap`.
pub fn deny_share(
    value: Dec,
    percent: Dec,
    equity: &Money,
    cap: &Cap,
    env_name: &str,
    label: &str,
) -> (r: Decision)
    ensures
        r@ == Verdict::Deny(share_reason(value, percent, *equity, *cap, env_name@, label@)),
{
    deny(
        label.to_owned().concat(" ").concat(value.text().as_str()).concat(" is ").concat(
            percent.text_tenths().as_str(),
        ).concat("% of equity ").concat(equity.text().as_str()).concat(", exceeds ").concat(
            env_name,
        ).concat(" (").concat(cap.shown.as_str()).concat("%)"),
    )
}

/// Denies an entry that takes `value` past the share `cap` of `equity`. The quotient of the two,
/// and the percentage that is shown, have to fit in a decimal.
pub fn check_pct(value: Dec, equity: &Money, cap: &Cap, env_name: &str, label: &str) -> (r: Option<
    Decision,
>)
    requires
        share_finding(value, *equity, *cap, env_name@, label@) !is Unfit,
    ensures
        match r {
            Some(d) => share_finding(value, *equity, *cap, env_name@, label@) is Breach && d@
                == Verdict::Deny(share_finding(value, *equity, *cap, env_name@, label@)->Breach_0),
            None => share_finding(value, *equity, *cap, env_name@, label@) is Kept,
        },
        goes_by_exact_share(
            value,
            *equity,
            *cap,
            share_finding(value, *equity, *cap, env_name@, label@),
        ),
{
    if !equity.amount.is_positive() {
        return Some(
            deny(
                "account equity ".to_owned().concat(equity.text().as_str()).concat(
                    " is non-positive; denying entry (fail-closed) for ",
                ).concat(env_name),
            ),
        );
    }
    let fraction = value.checked_div(equity.amount).unwrap();
    proof {
        exact_shares_decide(value, *equity, *cap, env_name@, label@);
    }
    if cap.limit.less_than(fraction) {
        let percent = fraction.checked_mul(Dec::hundred()).unwrap();
        return Some(deny_share(value, percent, equity, cap, env_name, label));
    }
    None
}

/// Evaluates a share rule where its numbers fit; `None` where one does not.
pub fn try_check_pct(
    value: Dec,
    equity: &Money,
    cap: &Cap,
    env_name: &str,
    label: &str,
) -> (r: Option<Option<Decision>>)
    ensures
        match r {
            Some(Some(d)) => share_finding(value, *equity, *cap, env_name@, label@) is Breach && d@
                == Verdict::Deny(share_finding(value, *equity, *cap, env_name@, label@)->Breach_0),
            Some(None) => share_finding(value, *equity, *cap, env_name@, label@) is Kept,
            None => share_finding(value, *equity, *cap, env_name@, label@) is Unfit,
        },
        goes_by_exact_share(
            value,
            *equity,
            *cap,
            share_finding(value, *equity, *cap, env_name@, label@),
        ),
{
    if equity.amount.is_positive() {
        match value.checked_div(equity.amount) {
            None => return None,
            Some(fraction) => {
                if cap.limit.less_than(fraction) && fraction.checked_mul(Dec::hundred()).is_none() {
                    return None;
                }
            },
        }
    }
    Some(check_pct(value, equity, cap, env_name, label))
}

/// The value of the symbol's position after the entry, at the entry's price.
pub open spec fn position_value(order: OrderInfo, account: AccountInfo, px: Dec) -> Option<Dec> {
    match decimal_sum(account.symbol_net_qty, order.signed()) {
        None => None,
        Some(resulting) => decimal_product(resulting.absolute(), px),
    }
}

/// The same, as far as the arithmetic is known to be exact.
pub open spec fn position_exactly(order: OrderInfo, account: AccountInfo, px: Dec) -> Option<Dec> {
    match sum_in_range(account.symbol_net_qty, order.signed()) {
        None => None,
        Some(resulting) => product_in_range(resulting.absolute(), px),
    }
}

/// The value of the symbol's position after the entry, at the entry's price, if it fits.
pub fn resulting_position(order: &OrderInfo, account: &AccountInfo, px: Dec) -> (r: Option<Dec>)
    ensures
        r == position_value(*order, *account, px),
        position_exactly(*order, *account, px) is Some ==> r == position_exactly(
            *order,
            *account,
            px,
        ),
{
    match account.symbol_net_qty.checked_add(order.signed_qty()) {
        None => None,
        Some(resulting) => resulting.abs().checked_mul(px),
    }
}

/// Total gross exposure after the entry: the symbol's part at cost is replaced by the value of
/// its position after the entry.
pub open spec fn gross_value(order: OrderInfo, account: AccountInfo, px: Dec) -> Option<Dec> {
    match decimal_product(account.symbol_net_qty, account.symbol_avg_px) {
        None => None,
        Some(cost) => match position_value(order, account, px) {
            None => None,
            Some(position) => match decimal_difference(
                account.total_gross_exposure,
                cost.absolute(),
            ) {
                None => None,
                Some(others) => decimal_sum(others, position),
            },
        },
    }
}

/// The same, as far as the arithmetic is known to be exact.
pub open spec fn gross_exactly(order: OrderInfo, account: AccountInfo, px: Dec) -> Option<Dec> {
    match product_in_range(account.symbol_net_qty, account.symbol_avg_px) {
        None => None,
        Some(cost) => match position_exactly(order, account, px) {
            None => None,
            Some(position) => match difference_in_range(
                account.total_gross_exposure,
                cost.absolute(),
            ) {
                None => None,
                Some(others) => sum_in_range(others, position),
            },
        },
    }
}

/// Total gross exposure after the entry, if it fits.
pub fn resulting_gross(order: &OrderInfo, account: &AccountInfo, px: Dec) -> (r: Option<Dec>)
    ensures
        r == gross_value(*order, *account, px),
        gross_exactly(*order, *account, px) is Some ==> r == gross_exactly(*order, *account, px),
{
    match account.symbol_net_qty.checked_mul(account.symbol_avg_px) {
        None => None,
        Some(cost) => match resulting_position(order, account, px) {
            None => None,
            Some(position) => match account.total_gross_exposure.checked_sub(cost.abs()) {
                None => None,
                Some(others) => others.checked_add(position),
            },
        },
    }
}

// ----- the whole check -----

/// The notional rule on `order`; it needs a price, and without one it is not looked at here.
pub open spec fn notional_finding(order: OrderInfo, limits: GatekeeperLimits) -> Finding {
    match (limits.max_order_notional, order.price()) {
        (Some(cap), Some(px)) => match decimal_product(order.quantity, px) {
            None => Finding::Unfit,
            Some(notional) => if below(cap.limit, notional) {
                Finding::Breach(notional_reason(notional, cap))
            } else {
                Finding::Kept
            },
        },
        _ => Finding::Kept,
    }
}

/// The rule on the symbol's position, for an entry at price `px`.
pub open spec fn position_finding(
    order: OrderInfo,
    account: AccountInfo,
    limits: GatekeeperLimits,
    px: Dec,
) -> Finding {
    match (limits.max_position_pct, account.equity) {
        (Some(cap), Some(equity)) => match position_value(order, account, px) {
            None => Finding::Unfit,
            Some(value) => share_finding(
                value,
                equity,
                cap,
                ENV_MAX_POSITION_PCT@,
                "resulting position value"@,
            ),
        },
        _ => Finding::Kept,
    }
}

/// The rule on total gross exposure, for an entry at price `px`.
pub open spec fn gross_finding(
    order: OrderInfo,
    account: AccountInfo,
    limits: GatekeeperLimits,
    px: Dec,
) -> Finding {
    match (limits.max_gross_exposure_pct, account.equity) {
        (Some(cap), Some(equity)) => match gross_value(order, account, px) {
            None => Finding::Unfit,
            Some(value) => share_finding(
                value,
                equity,
                cap,
                ENV_MAX_GROSS_EXPOSURE_PCT@,
                "resulting gross exposure"@,
            ),
        },
        _ => Finding::Kept,
    }
}

/// The verdict on an entry.
pub open spec fn entry_verdict(
    order: OrderInfo,
    account: AccountInfo,
    limits: GatekeeperLimits,
) -> Option<Verdict> {
    match (entry_breach(order, account, limits), order.price()) {
        (Some(reason), _) => Some(Verdict::Deny(reason)),
        (None, None) => Some(Verdict::Allow),
        (None, Some(px)) => match position_finding(order, account, limits, px) {
            Finding::Unfit => None,
            Finding::Breach(reason) => Some(Verdict::Deny(reason)),
            Finding::Kept => match gross_finding(order, account, limits, px) {
                Finding::Unfit => None,
                Finding::Breach(reason) => Some(Verdict::Deny(reason)),
                Finding::Kept => Some(Verdict::Allow),
            },
        },
    }
}

/// The verdict on an order: the first rule that is breached denies it. `None` where a number that
/// is needed on the way does not fit in a decimal.
pub open spec fn verdict(
    order: OrderInfo,
    account: AccountInfo,
    limits: GatekeeperLimits,
) -> Option<Verdict> {
    if limits.passes_everything() {
        Some(Verdict::Allow)
    } else {
        match (shares_breach(order, limits), notional_finding(order, limits)) {
            (Some(reason), _) => Some(Verdict::Deny(reason)),
            (None, Finding::Unfit) => None,
            (None, Finding::Breach(reason)) => Some(Verdict::Deny(reason)),
            (None, Finding::Kept) => match decimal_sum(account.symbol_net_qty, order.signed()) {
                None => None,
                Some(resulting) => if grows(account.symbol_net_qty, resulting) {
                    entry_verdict(order, account, limits)
                } else {
                    Some(Verdict::Allow)
                },
            },
        }
    }
}

/// Whether an order is within both per-order caps.
pub open spec fn within_order_caps(order: OrderInfo, limits: GatekeeperLimits) -> bool {
    shares_breach(order, limits) is None && notional_finding(order, limits) is Kept
}

/// Whether the verdict on an entry goes by exact numbers: the value of the position and then that
/// of gross exposure are exact where every step is known to be, and so are their shares of equity
/// where decimals are those shares.
pub open spec fn goes_by_exact_shares(
    order: OrderInfo,
    account: AccountInfo,
    limits: GatekeeperLimits,
) -> bool {
    entry_breach(order, account, limits) is None ==> match (order.price(), account.equity) {
        (Some(px), Some(equity)) => {
            &&& limits.max_position_pct is Some && position_exactly(order, account, px) is Some
                ==> position_value(order, account, px) == position_exactly(order, account, px)
            &&& position_finding(order, account, limits, px) is Kept
                && limits.max_gross_exposure_pct is Some && gross_exactly(order, account, px) is Some
                ==> gross_value(order, account, px) == gross_exactly(order, account, px)
            &&& limits.max_position_pct matches Some(cap) ==> (position_value(
                order,
                account,
                px,
            ) matches Some(value) ==> goes_by_exact_share(
                value,
                equity,
                cap,
                position_finding(order, account, limits, px),
            ))
            &&& position_finding(order, account, limits, px) is Kept ==> (
            limits.max_gross_exposure_pct matches Some(cap) ==> (gross_value(
                order,
                account,
                px,
            ) matches Some(value) ==> goes_by_exact_share(
                value,
                equity,
                cap,
                gross_finding(order, account, limits, px),
            )))
        },
        _ => true,
    }
}

/// Whether the verdict goes by exact arithmetic where the numbers are ordinary: the notional that
/// is compared with its cap is the exact product, the position after the order is the exact sum,
/// and the shares of equity of an entry are exact.
pub open spec fn goes_by_exact_numbers(
    order: OrderInfo,
    account: AccountInfo,
    limits: GatekeeperLimits,
) -> bool {
    let looks_at_caps = !limits.passes_everything() && shares_breach(order, limits) is None;
    &&& looks_at_caps && limits.max_order_notional is Some && (order.price() matches Some(px)
        && product_in_range(order.quantity, px) is Some) ==> decimal_product(
        order.quantity,
        order.price()->0,
    ) == product_in_range(order.quantity, order.price()->0)
    &&& looks_at_caps && notional_finding(order, limits) is Kept && is_entry(order, account)
        ==> goes_by_exact_shares(order, account, limits)
    &&& looks_at_caps && notional_finding(order, limits) is Kept && sum_in_range(
        account.symbol_net_qty,
        order.signed(),
    ) is Some ==> decimal_sum(account.symbol_net_qty, order.signed()) == sum_in_range(
        account.symbol_net_qty,
        order.signed(),
    )
}

/// Evaluates an entry; `None` where a number on the way does not fit.
pub fn try_check_value(order: &OrderInfo, account: &AccountInfo, limits: &GatekeeperLimits) -> (r:
    Option<Decision>)
    ensures
        match r {
            Some(d) => entry_verdict(*order, *account, *limits) == Some(d@),
            None => entry_verdict(*order, *account, *limits) is None,
        },
        goes_by_exact_shares(*order, *account, *limits),
{
    if let Some(d) = check_entry(order, account, limits) {
        return Some(d);
    }
    let px = match order.valuation_price() {
        Some(px) => px,
        None => return Some(Decision::Allow),
    };
    if let (Some(cap), Some(equity)) = (&limits.max_position_pct, &account.equity) {
        let value = match resulting_position(order, account, px) {
            Some(value) => value,
            None => return None,
        };
        match try_check_pct(value, equity, cap, ENV_MAX_POSITION_PCT, "resulting position value") {
            None => return None,
            Some(Some(d)) => return Some(d),
            Some(None) => {},
        }
    }
    if let (Some(cap), Some(equity)) = (&limits.max_gross_exposure_pct, &account.equity) {
        let value = match resulting_gross(order, account, px) {
            Some(value) => value,
            None => return None,
        };
        match try_check_pct(
            value,
            equity,
            cap,
            ENV_MAX_GROSS_EXPOSURE_PCT,
            "resulting gross exposure",
        ) {
            None => return None,
            Some(Some(d)) => return Some(d),
            Some(None) => {},
        }
    }
    Some(Decision::Allow)
}

/// Evaluates `order` against `limits`; `None` where a number on the way does not fit in a decimal.
pub fn try_check(order: &OrderInfo, account: &AccountInfo, limits: &GatekeeperLimits) -> (r: Option<
    Decision,
>)
    ensures
        match r {
            Some(d) => verdict(*order, *account, *limits) == Some(d@),
            None => verdict(*order, *account, *limits) is None,
        },
        goes_by_exact_numbers(*order, *account, *limits),
{
    if limits.is_empty() {
        return Some(Decision::Allow);
    }
    if let Some(d) = check_shares(order, limits) {
        return Some(d);
    }
    if let (Some(cap), Some(px)) = (&limits.max_order_notional, order.valuation_price()) {
        match order.quantity.checked_mul(px) {
            None => return None,
            Some(notional) => {
                if let Some(d) = check_notional(notional, cap) {
                    return Some(d);
                }
            },
        }
    }
    match try_is_increasing(order, account.symbol_net_qty) {
        None => None,
        Some(true) => try_check_value(order, account, limits),
        Some(false) => Some(Decision::Allow),
    }
}

/// Evaluates `order` against `limits`. Every number that is needed on the way has to fit in a
/// decimal; [`try_check`] says whether that is so.
pub fn check(order: &OrderInfo, account: &AccountInfo, limits: &GatekeeperLimits) -> (r: Decision)
    requires
        verdict(*order, *account, *limits) is Some,
    ensures
        verdict(*order, *account, *limits) == Some(r@),
        goes_by_exact_numbers(*order, *account, *limits),
{
    try_check(order, account, limits).unwrap()
}

// ----- configuration -----

/// The value of a variable, unset and white space alike standing for none.
pub open spec fn present(raw: Option<String>) -> Option<Seq<char>> {
    match raw {
        Some(v) if trimmed(v@).len() > 0 => Some(v@),
        _ => None,
    }
}

/// The value of a variable, treating white space as unset.
pub fn read_env(raw: Option<String>) -> (r: Option<String>)
    ensures
        r is Some <==> present(raw) is Some,
        r matches Some(v) ==> present(raw) == Some(v@),
{
    match raw {
        Some(v) => if trim(v.as_str()).as_str().is_empty() {
            None
        } else {
            Some(v)
        },
        None => None,
    }
}

/// The texts that stand for true.
pub open spec fn is_true_word(s: Seq<char>) -> bool {
    s == "true"@ || s == "1"@ || s == "yes"@ || s == "on"@
}

/// A boolean variable: `true`, `1`, `yes` or `on`, in any case and with white space around it, is
/// true; anything else, and no value, is false.
pub fn parse_bool_env(raw: Option<String>) -> (r: bool)
    ensures
        r == (raw matches Some(v) && is_true_word(lowered(trimmed(v@)))),
{
    match read_env(raw) {
        None => {
            proof {
                reveal_strlit("true");
                reveal_strlit("1");
                reveal_strlit("yes");
                reveal_strlit("on");
                assert("true"@.len() == 4 && "1"@.len() == 1 && "yes"@.len() == 3 && "on"@.len()
                    == 2);
                assert(raw matches Some(v) ==> lowered(trimmed(v@)).len() == 0);
            }
            false
        },
        Some(v) => {
            let word = trim(v.as_str()).as_str().to_ascii_lowercase();
            same_text(word.as_str(), "true") || same_text(word.as_str(), "1") || same_text(
                word.as_str(),
                "yes",
            ) || same_text(word.as_str(), "on")
        },
    }
}

/// The bits of the double-precision number that is infinite. Non-negative numbers are ordered as
/// their bits are; what follows is not a number, or is negative.
pub const INFINITY_BITS: u64 = 0x7FF0_0000_0000_0000;

/// The bits of the double-precision number one hundred.
pub const HUNDRED_BITS: u64 = 0x4059_0000_0000_0000;

/// The error of a variable whose value is `raw`.
pub open spec fn env_error(name: Seq<char>, raw: Seq<char>, problem: Seq<char>) -> Seq<char> {
    name + "='"@ + raw + problem
}

/// The number that a variable sets: `bits` are those of the double-precision number that `raw`
/// is parsed to, if it is one. `limit` is the largest number's bits, and `problem` says what is
/// wrong with one out of range.
pub open spec fn env_number(
    name: Seq<char>,
    raw: Option<String>,
    bits: Option<u64>,
    limit: u64,
    problem: Seq<char>,
) -> Result<Option<u64>, Seq<char>> {
    match (present(raw), bits) {
        (None, _) => Ok(None),
        (Some(text), None) => Err(env_error(name, text, "' is not a number"@)),
        (Some(text), Some(b)) => if 0 < b <= limit {
            Ok(Some(b))
        } else {
            Err(env_error(name, text, problem))
        },
    }
}

/// What is wrong with a number that is not positive and finite.
pub const NOT_POSITIVE: &'static str = "' must be a positive finite number";

/// What is wrong with a number that is no percentage.
pub const NOT_PERCENT: &'static str =
    "' must be a percent number in (0, 100] (e.g. 25 = 25%, 0.25 = 0.25%)";

fn parse_number_env(
    name: &str,
    raw: Option<String>,
    bits: Option<u64>,
    limit: u64,
    problem: &str,
) -> (r: Result<Option<u64>, String>)
    ensures
        match (r, env_number(name@, raw, bits, limit, problem@)) {
            (Ok(a), Ok(b)) => a == b,
            (Err(a), Err(b)) => a@ == b,
            _ => false,
        },
{
    match (read_env(raw), bits) {
        (None, _) => Ok(None),
        (Some(text), None) => Err(
            name.to_owned().concat("='").concat(text.as_str()).concat("' is not a number"),
        ),
        (Some(text), Some(b)) => if 0 < b && b <= limit {
            Ok(Some(b))
        } else {
            Err(name.to_owned().concat("='").concat(text.as_str()).concat(problem))
        },
    }
}

/// A variable that holds a positive finite number; `bits` are those of the number that `raw` is
/// parsed to. No value is no limit.
pub fn parse_positive_env(name: &str, raw: Option<String>, bits: Option<u64>) -> (r: Result<
    Option<u64>,
    String,
>)
    ensures
        match (
            r,
            env_number(name@, raw, bits, (INFINITY_BITS - 1) as u64, NOT_POSITIVE@),
        ) {
            (Ok(a), Ok(b)) => a == b,
            (Err(a), Err(b)) => a@ == b,
            _ => false,
        },
{
    parse_number_env(name, raw, bits, INFINITY_BITS - 1, NOT_POSITIVE)
}

/// A variable that holds a percent number in (0, 100]; `bits` are those of the number that `raw`
/// is parsed to. No value is no limit.
pub fn parse_pct_env(name: &str, raw: Option<String>, bits: Option<u64>) -> (r: Result<
    Option<u64>,
    String,
>)
    ensures
        match (r, env_number(name@, raw, bits, HUNDRED_BITS, NOT_PERCENT@)) {
            (Ok(a), Ok(b)) => a == b,
            (Err(a), Err(b)) => a@ == b,
            _ => false,
        },
{
    parse_number_env(name, raw, bits, HUNDRED_BITS, NOT_PERCENT)
}

/// A variable of the environment that may hold a number.
#[derive(Clone, Debug)]
pub struct GateVar {
    /// Its value, if it is set.
    pub raw: Option<String>,
    /// The bits of the double-precision number that the value is parsed to, if it is one.
    pub bits: Option<u64>,
}

/// The variables of the environment that set risk limits.
#[derive(Clone, Debug)]
pub struct GateVars {
    pub max_order_shares: GateVar,
    pub max_order_notional: GateVar,
    pub max_position_pct: GateVar,
    pub max_gross_exposure_pct: GateVar,
    pub allow_market_orders: Option<String>,
}

/// The numbers that the environment sets, as bits of double-precision numbers; percentages are
/// still percent numbers.
#[derive(Clone, Copy, Debug, PartialEq, Eq, Structural)]
pub struct GateNumbers {
    pub max_order_shares: Option<u64>,
    pub max_order_notional: Option<u64>,
    pub max_position_pct: Option<u64>,
    pub max_gross_exposure_pct: Option<u64>,
    pub allow_market_orders: bool,
}

impl GateVar {
    /// A positive finite number under `name`.
    pub open spec fn positive(self, name: Seq<char>) -> Result<Option<u64>, Seq<char>> {
        env_number(name, self.raw, self.bits, (INFINITY_BITS - 1) as u64, NOT_POSITIVE@)
    }

    /// A percent number under `name`.
    pub open spec fn percent(self, name: Seq<char>) -> Result<Option<u64>, Seq<char>> {
        env_number(name, self.raw, self.bits, HUNDRED_BITS, NOT_PERCENT@)
    }
}

/// The numbers that the environment sets, or the error of the first variable that has one.
pub open spec fn gate_numbers(vars: GateVars) -> Result<GateNumbers, Seq<char>> {
    match (
        vars.max_order_shares.positive(ENV_MAX_ORDER_SHARES@),
        vars.max_order_notional.positive(ENV_MAX_ORDER_NOTIONAL@),
        vars.max_position_pct.percent(ENV_MAX_POSITION_PCT@),
        vars.max_gross_exposure_pct.percent(ENV_MAX_GROSS_EXPOSURE_PCT@),
    ) {
        (Err(e), _, _, _) => Err(e),
        (_, Err(e), _, _) => Err(e),
        (_, _, Err(e), _) => Err(e),
        (_, _, _, Err(e)) => Err(e),
        (Ok(shares), Ok(notional), Ok(position), Ok(gross)) => Ok(
            GateNumbers {
                max_order_shares: shares,
                max_order_notional: notional,
                max_position_pct: position,
                max_gross_exposure_pct: gross,
                allow_market_orders: vars.allow_market_orders matches Some(v) && is_true_word(
                    lowered(trimmed(v@)),
                ),
            },
        ),
    }
}

impl GatekeeperLimits {
    /// The numbers that the variables of the environment set. A variable that is not set leaves
    /// its limit out; the first one with a value that is out of order gives the error.
    pub fn from_env(vars: GateVars) -> (r: Result<GateNumbers, String>)
        ensures
            match (r, gate_numbers(vars)) {
                (Ok(a), Ok(b)) => a == b,
                (Err(a), Err(b)) => a@ == b,
                _ => false,
            },
    {
        let v = vars.max_order_shares;
        let max_order_shares = match parse_positive_env(ENV_MAX_ORDER_SHARES, v.raw, v.bits) {
            Ok(n) => n,
            Err(e) => return Err(e),
        };
        let v = vars.max_order_notional;
        let max_order_notional = match parse_positive_env(ENV_MAX_ORDER_NOTIONAL, v.raw, v.bits) {
            Ok(n) => n,
            Err(e) => return Err(e),
        };
        let v = vars.max_position_pct;
        let max_position_pct = match parse_pct_env(ENV_MAX_POSITION_PCT, v.raw, v.bits) {
            Ok(n) => n,
            Err(e) => return Err(e),
        };
        let v = vars.max_gross_exposure_pct;
        let max_gross_exposure_pct = match parse_pct_env(
            ENV_MAX_GROSS_EXPOSURE_PCT,
            v.raw,
            v.bits,
        ) {
            Ok(n) => n,
            Err(e) => return Err(e),
        };
        Ok(
            GateNumbers {
                max_order_shares,
                max_order_notional,
                max_position_pct,
                max_gross_exposure_pct,
                allow_market_orders: parse_bool_env(vars.allow_market_orders),
            },
        )
    }
}

// ----- laws -----

/// Whether `order` is an entry: it increases the magnitude of the symbol's net position.
pub open spec fn is_entry(order: OrderInfo, account: AccountInfo) -> bool {
    decimal_sum(account.symbol_net_qty, order.signed()) matches Some(resulting) && grows(
        account.symbol_net_qty,
        resulting,
    )
}

/// Whether `order` is an exit: it does not increase the magnitude of the net position.
pub open spec fn is_exit(order: OrderInfo, account: AccountInfo) -> bool {
    decimal_sum(account.symbol_net_qty, order.signed()) matches Some(resulting) && !grows(
        account.symbol_net_qty,
        resulting,
    )
}

/// An order increases exposure exactly when the net position after it is further from zero than
/// the one before it: a purchase on a long or flat position and a sale on a short or flat one
/// always, an order on the other side only when it overshoots.
pub proof fn entry_means_further_from_zero(net: Dec, order: OrderInfo, resulting: Dec)
    requires
        net.valid(),
        order.quantity.valid(),
        sum_in_range(net, order.signed()) == Some(resulting),
    ensures
        ({
            let p = common_places(net, order.quantity);
            let n = aligned(net, p);
            let q = aligned(order.quantity, p);
            grows(net, resulting) <==> match order.side {
                OrderSide::Buy => magnitude(n + q) > magnitude(n),
                OrderSide::Sell => magnitude(n - q) > magnitude(n),
                OrderSide::NoOrderSide => false,
            }
        }),
{
    broadcast use dec_parts;

    let p = common_places(net, order.quantity);
    let signed = order.signed();
    aligned_negated(order.quantity, p);
    assert(signed.valid());
    let c = common_places(net, signed);
    sum_value(net, signed, resulting, p);
    aligned_absolute(net, p);
    aligned_absolute(resulting, p);
    below_at(net.absolute(), resulting.absolute(), p);
    assert(0 * crate::decimal::ten_to(p) == 0) by (nonlinear_arith);
}

/// Gross exposure after an entry at `px`, where every step on the way is exact: what all positions
/// cost, less what the symbol's position cost, and in its place all the shares that are then held,
/// those held before and those of the order, at `px` each. A sale counts its shares negatively; a
/// short position counts by its magnitude.
pub proof fn gross_exposure_counts_every_share(
    order: OrderInfo,
    account: AccountInfo,
    px: Dec,
    cost: Dec,
    resulting: Dec,
    position: Dec,
    others: Dec,
    gross: Dec,
)
    requires
        order.quantity.valid(),
        account.symbol_net_qty.valid(),
        account.symbol_avg_px.valid(),
        account.total_gross_exposure.valid(),
        px.valid(),
        order.side != OrderSide::NoOrderSide,
        product_in_range(account.symbol_net_qty, account.symbol_avg_px) == Some(cost),
        sum_in_range(
            account.symbol_net_qty,
            if order.side == OrderSide::Buy {
                order.quantity
            } else {
                order.quantity.negated()
            },
        ) == Some(resulting),
        product_in_range(resulting.absolute(), px) == Some(position),
        difference_in_range(account.total_gross_exposure, cost.absolute()) == Some(others),
        sum_in_range(others, position) == Some(gross),
    ensures
        gross_exactly(order, account, px) == Some(gross),
        position_exactly(order, account, px) == Some(position),
        position.valid(),
        gross.valid(),
        ({
            let s = MAX_PLACES as nat;
            let held = aligned(account.symbol_net_qty, s);
            let bought = if order.side == OrderSide::Buy {
                aligned(order.quantity, s)
            } else {
                -aligned(order.quantity, s)
            };
            &&& aligned(position, s + s) == magnitude(held + bought) * aligned(px, s)
            &&& aligned(gross, s + s) == aligned(account.total_gross_exposure, s + s) - magnitude(
                held * aligned(account.symbol_avg_px, s),
            ) + magnitude(held + bought) * aligned(px, s)
        }),
{
    broadcast use dec_parts;

    let s = MAX_PLACES as nat;
    let signed = order.signed();
    aligned_negated(order.quantity, s);
    product_value(account.symbol_net_qty, account.symbol_avg_px, cost, s, s);
    sum_value(account.symbol_net_qty, signed, resulting, s);
    aligned_absolute(resulting, s);
    product_value(resulting.absolute(), px, position, s, s);
    aligned_absolute(cost, s + s);
    difference_value(account.total_gross_exposure, cost.absolute(), others, s + s);
    sum_value(others, position, gross, s + s);
}

/// Adding shares to a position, a purchase to a long or flat one or a sale to a short or flat one,
/// at a price that is not below its average entry price never lowers gross exposure.
pub proof fn adding_shares_never_lowers_gross_exposure(
    order: OrderInfo,
    account: AccountInfo,
    px: Dec,
    cost: Dec,
    resulting: Dec,
    position: Dec,
    others: Dec,
    gross: Dec,
)
    requires
        order.quantity.valid(),
        account.symbol_net_qty.valid(),
        account.symbol_avg_px.valid(),
        account.total_gross_exposure.valid(),
        px.valid(),
        order.quantity.units() >= 0,
        account.symbol_avg_px.units() >= 0,
        !below(px, account.symbol_avg_px),
        ({
            ||| order.side == OrderSide::Buy && account.symbol_net_qty.units() >= 0
            ||| order.side == OrderSide::Sell && account.symbol_net_qty.units() <= 0
        }),
        product_in_range(account.symbol_net_qty, account.symbol_avg_px) == Some(cost),
        sum_in_range(
            account.symbol_net_qty,
            if order.side == OrderSide::Buy {
                order.quantity
            } else {
                order.quantity.negated()
            },
        ) == Some(resulting),
        product_in_range(resulting.absolute(), px) == Some(position),
        difference_in_range(account.total_gross_exposure, cost.absolute()) == Some(others),
        sum_in_range(others, position) == Some(gross),
    ensures
        gross_exactly(order, account, px) == Some(gross),
        !below(gross, account.total_gross_exposure),
{
    let s = MAX_PLACES as nat;
    gross_exposure_counts_every_share(
        order,
        account,
        px,
        cost,
        resulting,
        position,
        others,
        gross,
    );
    below_at(px, account.symbol_avg_px, s);
    let held = aligned(account.symbol_net_qty, s);
    let added = aligned(order.quantity, s);
    let avg = aligned(account.symbol_avg_px, s);
    let price = aligned(px, s);
    aligned_keeps_sign(account.symbol_net_qty, s);
    aligned_keeps_sign(order.quantity, s);
    aligned_keeps_sign(account.symbol_avg_px, s);
    let bought = if order.side == OrderSide::Buy {
        added
    } else {
        -added
    };
    let before = magnitude(held) as int;
    let after = magnitude(held + bought) as int;
    assert(before <= after);
    assert(magnitude(held * avg) == before * avg) by (nonlinear_arith)
        requires
            avg >= 0,
            before == magnitude(held),
    ;
    assert(before * avg <= after * price) by (nonlinear_arith)
        requires
            0 <= before <= after,
            0 <= avg <= price,
    ;
    below_at(gross, account.total_gross_exposure, s + s);
}

/// Whether a number is above a cap, both written at the most places that numbers have.
pub open spec fn exceeds(value: Dec, cap: Option<Cap>) -> bool {
    cap matches Some(c) && aligned(c.limit, MAX_PLACES as nat) < aligned(value, MAX_PLACES as nat)
}

proof fn exceeding_is_above(value: Dec, cap: Cap)
    requires
        value.valid(),
        cap.limit.valid(),
    ensures
        exceeds(value, Some(cap)) <==> below(cap.limit, value),
{
    below_at(cap.limit, value, MAX_PLACES as nat);
}

/// Whether the configured limits are numbers.
pub open spec fn caps_are_valid(limits: GatekeeperLimits) -> bool {
    &&& limits.max_order_shares matches Some(cap) ==> cap.limit.valid()
    &&& limits.max_order_notional matches Some(cap) ==> cap.limit.valid()
    &&& limits.max_position_pct matches Some(cap) ==> cap.limit.valid()
    &&& limits.max_gross_exposure_pct matches Some(cap) ==> cap.limit.valid()
}

/// The verdict on an order with a price, on exact numbers and with a positive equity. The order is
/// refused where it is for too many shares or too much money. Where it takes the net position
/// further from zero, it is refused as well where it is a market order that is not allowed, where
/// the shares then held are worth too large a share of equity, and where gross exposure is too
/// large a share of equity. Else it is allowed.
pub proof fn verdict_on_exact_numbers(
    order: OrderInfo,
    account: AccountInfo,
    limits: GatekeeperLimits,
    px: Dec,
    notional: Dec,
    cost: Dec,
    resulting: Dec,
    position: Dec,
    others: Dec,
    gross: Dec,
    position_share: Dec,
    gross_share: Dec,
)
    requires
        goes_by_exact_numbers(order, account, limits),
        verdict(order, account, limits) is Some,
        caps_are_valid(limits),
        order.quantity.valid(),
        account.symbol_net_qty.valid(),
        account.symbol_avg_px.valid(),
        account.total_gross_exposure.valid(),
        px.valid(),
        position_share.valid(),
        gross_share.valid(),
        order.side != OrderSide::NoOrderSide,
        order.limit_price == Some(px) || (order.limit_price is None && order.reference_price
            == Some(px)),
        account.equity matches Some(equity) && equity.amount.units() > 0 && is_quotient(
            position,
            equity.amount,
            position_share,
        ) && is_quotient(gross, equity.amount, gross_share),
        product_in_range(order.quantity, px) == Some(notional),
        product_in_range(account.symbol_net_qty, account.symbol_avg_px) == Some(cost),
        sum_in_range(
            account.symbol_net_qty,
            if order.side == OrderSide::Buy {
                order.quantity
            } else {
                order.quantity.negated()
            },
        ) == Some(resulting),
        product_in_range(resulting.absolute(), px) == Some(position),
        difference_in_range(account.total_gross_exposure, cost.absolute()) == Some(others),
        sum_in_range(others, position) == Some(gross),
    ensures
        ({
            let s = MAX_PLACES as nat;
            let held = aligned(account.symbol_net_qty, s);
            let bought = if order.side == OrderSide::Buy {
                aligned(order.quantity, s)
            } else {
                -aligned(order.quantity, s)
            };
            let refused = {
                ||| exceeds(order.quantity, limits.max_order_shares)
                ||| exceeds(notional, limits.max_order_notional)
                ||| magnitude(held + bought) > magnitude(held) && {
                    ||| order.order_type == OrderType::Market && !limits.allow_market_orders
                    ||| exceeds(position_share, limits.max_position_pct)
                    ||| exceeds(gross_share, limits.max_gross_exposure_pct)
                }
            };
            verdict(order, account, limits) == Some(Verdict::Allow) <==> !refused
        }),
{
    broadcast use dec_parts;

    let s = MAX_PLACES as nat;
    gross_exposure_counts_every_share(
        order,
        account,
        px,
        cost,
        resulting,
        position,
        others,
        gross,
    );
    product_value(order.quantity, px, notional, s, s);
    let signed = order.signed();
    aligned_negated(order.quantity, s);
    sum_value(account.symbol_net_qty, signed, resulting, s);
    aligned_absolute(account.symbol_net_qty, s);
    aligned_absolute(resulting, s);
    below_at(account.symbol_net_qty.absolute(), resulting.absolute(), s);
    if let Some(cap) = limits.max_order_shares {
        exceeding_is_above(order.quantity, cap);
    }
    if let Some(cap) = limits.max_order_notional {
        exceeding_is_above(notional, cap);
    }
    if let Some(cap) = limits.max_position_pct {
        exceeding_is_above(position_share, cap);
    }
    if let Some(cap) = limits.max_gross_exposure_pct {
        exceeding_is_above(gross_share, cap);
    }
}

/// What cannot be judged is refused: an entry while a share of equity is capped and equity is
/// unknown or not positive, and an entry that nothing prices while its value is capped.
pub proof fn entries_that_cannot_be_judged_are_refused(
    order: OrderInfo,
    account: AccountInfo,
    limits: GatekeeperLimits,
)
    requires
        is_entry(order, account),
    ensures
        (limits.max_position_pct is Some || limits.max_gross_exposure_pct is Some) && (
        account.equity matches Some(equity) ==> equity.amount.units() <= 0) ==> verdict(
            order,
            account,
            limits,
        ) != Some(Verdict::Allow),
        (limits.max_order_notional is Some || limits.max_position_pct is Some
            || limits.max_gross_exposure_pct is Some) && order.limit_price is None
            && order.reference_price is None ==> verdict(order, account, limits) != Some(
            Verdict::Allow,
        ),
{
}

/// Each limit is set by the variable of its own name: a variable with a number in its range gives
/// the limit that number, one that is empty leaves the limit out, and nothing else is accepted.
/// Numbers of shares and of money are positive and finite, percentages at most one hundred.
pub proof fn variables_set_their_own_limits(vars: GateVars, numbers: GateNumbers)
    requires
        gate_numbers(vars) == Ok::<GateNumbers, Seq<char>>(numbers),
    ensures
        is_set_by(numbers.max_order_shares, vars.max_order_shares, (INFINITY_BITS - 1) as u64),
        is_set_by(numbers.max_order_notional, vars.max_order_notional, (INFINITY_BITS - 1) as u64),
        is_set_by(numbers.max_position_pct, vars.max_position_pct, HUNDRED_BITS),
        is_set_by(numbers.max_gross_exposure_pct, vars.max_gross_exposure_pct, HUNDRED_BITS),
        vars.allow_market_orders is None ==> !numbers.allow_market_orders,
        vars.allow_market_orders matches Some(v) ==> ({
            let word = lowered(trimmed(v@));
            numbers.allow_market_orders <==> word == "true"@ || word == "1"@ || word == "yes"@
                || word == "on"@
        }),
{
    if let Some(text) = vars.max_order_shares.raw {
        only_white_is_trimmed(text@);
    }
    if let Some(text) = vars.max_order_notional.raw {
        only_white_is_trimmed(text@);
    }
    if let Some(text) = vars.max_position_pct.raw {
        only_white_is_trimmed(text@);
    }
    if let Some(text) = vars.max_gross_exposure_pct.raw {
        only_white_is_trimmed(text@);
    }
}

/// Whether a limit is what a variable sets: nothing where the variable is unset or white space,
/// else its number, which is above zero and at most `limit`.
pub open spec fn is_set_by(number: Option<u64>, var: GateVar, limit: u64) -> bool {
    match var.raw {
        Some(text) if exists|i: int| 0 <= i < text@.len() && !white_space(#[trigger] text@[i]) => {
            number is Some && number == var.bits && 0 < number->0 <= limit
        },
        _ => number is None,
    }
}

/// Limits without any cap and with market entries allowed let every order through.
pub proof fn no_limits_allow_everything(
    order: OrderInfo,
    account: AccountInfo,
    limits: GatekeeperLimits,
)
    requires
        limits.passes_everything(),
    ensures
        verdict(order, account, limits) == Some(Verdict::Allow),
{
}

/// An exit within the per-order caps is allowed, whatever its type, whatever the exposure rules
/// say of the position that it leaves, and whether or not equity is known.
pub proof fn exits_skip_exposure_rules(
    order: OrderInfo,
    account: AccountInfo,
    limits: GatekeeperLimits,
)
    requires
        is_exit(order, account),
        within_order_caps(order, limits),
    ensures
        verdict(order, account, limits) == Some(Verdict::Allow),
{
}

/// The per-order caps bind every order, entries and exits alike: what is allowed is within them.
pub proof fn order_caps_bind_every_order(
    order: OrderInfo,
    account: AccountInfo,
    limits: GatekeeperLimits,
)
    requires
        verdict(order, account, limits) == Some(Verdict::Allow),
    ensures
        limits.max_order_shares matches Some(cap) ==> !below(cap.limit, order.quantity),
        limits.max_order_notional matches Some(cap) ==> (order.price() matches Some(px) ==> (
        decimal_product(order.quantity, px) matches Some(notional) && !below(cap.limit, notional))),
{
}

/// A market order that is an entry is never allowed unless market entries are.
pub proof fn market_entries_need_permission(
    order: OrderInfo,
    account: AccountInfo,
    limits: GatekeeperLimits,
)
    requires
        order.order_type == OrderType::Market,
        is_entry(order, account),
        !limits.allow_market_orders,
    ensures
        verdict(order, account, limits) != Some(Verdict::Allow),
        within_order_caps(order, limits) ==> verdict(order, account, limits) == Some(
            Verdict::Deny(market_entry_reason()),
        ),
{
}

/// With an equity rule configured and equity unknown, no entry is allowed.
pub proof fn unknown_equity_denies_every_entry(
    order: OrderInfo,
    account: AccountInfo,
    limits: GatekeeperLimits,
)
    requires
        is_entry(order, account),
        limits.needs_equity(),
        account.equity is None,
    ensures
        verdict(order, account, limits) != Some(Verdict::Allow),
        within_order_caps(order, limits) ==> verdict(order, account, limits) matches Some(
            Verdict::Deny(_),
        ),
{
}

/// With a rule configured that needs a price, no entry without one is allowed.
pub proof fn unpriced_entry_is_denied(
    order: OrderInfo,
    account: AccountInfo,
    limits: GatekeeperLimits,
)
    requires
        is_entry(order, account),
        limits.needs_price(),
        order.price() is None,
    ensures
        verdict(order, account, limits) != Some(Verdict::Allow),
        within_order_caps(order, limits) ==> verdict(order, account, limits) matches Some(
            Verdict::Deny(_),
        ),
{
}

/// An entry that is allowed keeps the position and the gross exposure within their shares of a
/// positive equity.
pub proof fn allowed_entries_keep_equity_shares(
    order: OrderInfo,
    account: AccountInfo,
    limits: GatekeeperLimits,
)
    requires
        is_entry(order, account),
        verdict(order, account, limits) == Some(Verdict::Allow),
    ensures
        limits.max_position_pct matches Some(cap) ==> {
            &&& account.equity matches Some(equity)
            &&& equity.amount.units() > 0
            &&& order.price() matches Some(px)
            &&& position_value(order, account, px) matches Some(value)
            &&& decimal_quotient(value, equity.amount) matches Some(fraction)
            &&& !below(cap.limit, fraction)
        },
        limits.max_gross_exposure_pct matches Some(cap) ==> {
            &&& account.equity matches Some(equity)
            &&& equity.amount.units() > 0
            &&& order.price() matches Some(px)
            &&& gross_value(order, account, px) matches Some(value)
            &&& decimal_quotient(value, equity.amount) matches Some(fraction)
            &&& !below(cap.limit, fraction)
        },
{
}

/// A limit price values the order alone: with one, the reference price changes nothing.
pub proof fn limit_price_hides_reference_price(
    order: OrderInfo,
    other: OrderInfo,
    account: AccountInfo,
    limits: GatekeeperLimits,
)
    requires
        order.limit_price is Some,
        order.side == other.side,
        order.order_type == other.order_type,
        order.quantity == other.quantity,
        order.limit_price == other.limit_price,
    ensures
        verdict(order, account, limits) == verdict(other, account, limits),
{
}

/// Whether a cap is at least as high as another one, or absent.
pub open spec fn loosens(tight: Option<Cap>, loose: Option<Cap>) -> bool {
    loose matches Some(high) ==> tight matches Some(low) && !below(high.limit, low.limit)
}

/// Whether no rule of the limits `loose` is stricter than that of `tight`.
pub open spec fn loosens_all(tight: GatekeeperLimits, loose: GatekeeperLimits) -> bool {
    &&& loosens(tight.max_order_shares, loose.max_order_shares)
    &&& loosens(tight.max_order_notional, loose.max_order_notional)
    &&& loosens(tight.max_position_pct, loose.max_position_pct)
    &&& loosens(tight.max_gross_exposure_pct, loose.max_gross_exposure_pct)
    &&& tight.allow_market_orders ==> loose.allow_market_orders
}

/// What is within the lower cap is within the higher one.
proof fn within_the_higher_cap(low: Dec, high: Dec, x: Dec)
    requires
        !below(high, low),
        !below(low, x),
    ensures
        !below(high, x),
{
    if below(high, x) {
        let p = high.places() + x.places();
        below_at(high, x, p);
        below_at(x, high, p);
        below_chain(low, high, x);
    }
}

/// Raising caps, dropping them, or allowing market entries never turns an allowed order into a
/// denied one.
pub proof fn looser_limits_deny_nothing_new(
    order: OrderInfo,
    account: AccountInfo,
    tight: GatekeeperLimits,
    loose: GatekeeperLimits,
)
    requires
        loosens_all(tight, loose),
        verdict(order, account, tight) == Some(Verdict::Allow),
    ensures
        verdict(order, account, loose) == Some(Verdict::Allow),
{
    if !loose.passes_everything() {
        if let (Some(low), Some(high)) = (tight.max_order_shares, loose.max_order_shares) {
            within_the_higher_cap(low.limit, high.limit, order.quantity);
        }
        if let Some(px) = order.price() {
            if let (Some(low), Some(high)) = (tight.max_order_notional, loose.max_order_notional) {
                let notional = decimal_product(order.quantity, px)->0;
                within_the_higher_cap(low.limit, high.limit, notional);
            }
            if is_entry(order, account) && account.equity is Some {
                let equity = account.equity->0.amount;
                if let (Some(low), Some(high)) = (tight.max_position_pct, loose.max_position_pct) {
                    let value = position_value(order, account, px)->0;
                    let share = decimal_quotient(value, equity)->0;
                    within_the_higher_cap(low.limit, high.limit, share);
                }
                if let (Some(low), Some(high)) = (
                    tight.max_gross_exposure_pct,
                    loose.max_gross_exposure_pct,
                ) {
                    let value = gross_value(order, account, px)->0;
                    let share = decimal_quotient(value, equity)->0;
                    within_the_higher_cap(low.limit, high.limit, share);
                }
            }
        }
    }
}

/// The reason of a denial is the first rule that is broken, with what was asked for and the cap as
/// it was given: the number of shares, then the notional, then, for an entry, a market order,
/// unknown equity, a missing price, equity that is not positive.
pub proof fn the_first_broken_rule_is_told(
    order: OrderInfo,
    account: AccountInfo,
    limits: GatekeeperLimits,
    cap: Cap,
    px: Dec,
    notional: Dec,
)
    ensures
        limits.max_order_shares == Some(cap) && below(cap.limit, order.quantity) ==> verdict(
            order,
            account,
            limits,
        ) == Some(
            Verdict::Deny(
                "order quantity "@ + decimal_text(order.quantity) + " > "@
                    + "ALPACA_GATE_MAX_ORDER_SHARES"@ + " ("@ + cap.shown@ + ")"@,
            ),
        ),
        limits.max_order_shares is None && limits.max_order_notional == Some(cap)
            && order.limit_price == Some(px) && decimal_product(order.quantity, px) == Some(
            notional,
        ) && below(cap.limit, notional) ==> verdict(order, account, limits) == Some(
            Verdict::Deny(
                "order notional "@ + decimal_text(notional) + " > "@
                    + "ALPACA_GATE_MAX_ORDER_NOTIONAL"@ + " ("@ + cap.shown@ + ")"@,
            ),
        ),
        within_order_caps(order, limits) && is_entry(order, account) && order.order_type
            == OrderType::Market && !limits.allow_market_orders ==> verdict(order, account, limits)
            == Some(
            Verdict::Deny(
                "market orders not permitted for entries (set "@
                    + "ALPACA_GATE_ALLOW_MARKET_ORDERS"@
                    + "=true to allow; limit entries otherwise)"@,
            ),
        ),
        within_order_caps(order, limits) && is_entry(order, account) && order.order_type
            != OrderType::Market && (limits.max_position_pct is Some
            || limits.max_gross_exposure_pct is Some) && account.equity is None ==> verdict(
            order,
            account,
            limits,
        ) == Some(Verdict::Deny(no_equity_reason())),
        within_order_caps(order, limits) && is_entry(order, account) && order.order_type
            != OrderType::Market && limits.max_order_notional is Some && limits.max_position_pct
            is None && limits.max_gross_exposure_pct is None && order.limit_price is None
            && order.reference_price is None ==> verdict(order, account, limits) == Some(
            Verdict::Deny(no_price_reason()),
        ),
{
}

/// What the environment may set: a variable whose number is above zero and at most its largest sets
/// that number, any other number or text is an error, and the words for true are "true", "1", "yes"
/// and "on".
pub proof fn variables_in_range_are_taken(
    name: Seq<char>,
    raw: String,
    bits: u64,
    limit: u64,
    problem: Seq<char>,
    word: Seq<char>,
    i: int,
)
    requires
        0 <= i < raw@.len(),
        !white_space(raw@[i]),
    ensures
        0 < bits <= limit ==> env_number(name, Some(raw), Some(bits), limit, problem) == Ok::<
            Option<u64>,
            Seq<char>,
        >(Some(bits)),
        bits == 0 || bits > limit ==> env_number(name, Some(raw), Some(bits), limit, problem)
            is Err,
        env_number(name, Some(raw), None, limit, problem) is Err,
        env_number(name, None, Some(bits), limit, problem) == Ok::<Option<u64>, Seq<char>>(None),
        is_true_word(word) <==> word == "true"@ || word == "1"@ || word == "yes"@ || word == "on"@,
{
    only_white_is_trimmed(raw@);
}

/// What is said of a decision is what it holds.
pub proof fn decisions_are_their_parts(d: Decision)
    ensures
        d is Allow <==> d@ is Allow,
        d matches Decision::Deny { reason } ==> d@ == Verdict::Deny(reason@),
{
}

/// The reason of an entry that takes the position past its share of equity says so: the value that
/// the position would have, the percentage of equity that it would be, the equity and the cap; and
/// so does that of one that takes gross exposure past its share.
pub proof fn breached_shares_are_told(
    order: OrderInfo,
    account: AccountInfo,
    limits: GatekeeperLimits,
    px: Dec,
    value: Dec,
    fraction: Dec,
    percent: Dec,
    equity: Money,
    cap: Cap,
)
    requires
        within_order_caps(order, limits),
        is_entry(order, account),
        order.order_type != OrderType::Market,
        order.limit_price == Some(px),
        account.equity == Some(equity),
        equity.amount.units() > 0,
        decimal_quotient(value, equity.amount) == Some(fraction),
        below(cap.limit, fraction),
        decimal_product(fraction, Dec::of(100, 0)) == Some(percent),
    ensures
        limits.max_position_pct == Some(cap) && position_value(order, account, px) == Some(value)
            ==> verdict(order, account, limits) == Some(
            Verdict::Deny(
                "resulting position value"@ + " "@ + decimal_text(value) + " is "@
                    + decimal_text_tenths(percent) + "% of equity "@ + (decimal_text(equity.amount)
                    + " "@ + equity.currency@) + ", exceeds "@ + "ALPACA_GATE_MAX_POSITION_PCT"@
                    + " ("@ + cap.shown@ + "%)"@,
            ),
        ),
        limits.max_position_pct is None && limits.max_gross_exposure_pct == Some(cap)
            && gross_value(order, account, px) == Some(value) ==> verdict(order, account, limits)
            == Some(
            Verdict::Deny(
                "resulting gross exposure"@ + " "@ + decimal_text(value) + " is "@
                    + decimal_text_tenths(percent) + "% of equity "@ + (decimal_text(equity.amount)
                    + " "@ + equity.currency@) + ", exceeds "@
                    + "ALPACA_GATE_MAX_GROSS_EXPOSURE_PCT"@ + " ("@ + cap.shown@ + "%)"@,
            ),
        ),
{
}

/// Variables that are unset, or whose numbers are in range, are all accepted: every positive finite
/// number of shares and of money, and every percentage up to one hundred.
pub proof fn variables_in_order_are_accepted(vars: GateVars)
    requires
        is_unset_or_within(vars.max_order_shares, 0x7FEF_FFFF_FFFF_FFFF),
        is_unset_or_within(vars.max_order_notional, 0x7FEF_FFFF_FFFF_FFFF),
        is_unset_or_within(vars.max_position_pct, 0x4059_0000_0000_0000),
        is_unset_or_within(vars.max_gross_exposure_pct, 0x4059_0000_0000_0000),
    ensures
        gate_numbers(vars) is Ok,
{
}

/// Whether a variable is unset, or holds a number above zero and at most the one with these bits.
pub open spec fn is_unset_or_within(var: GateVar, limit: u64) -> bool {
    var.raw is None || (var.bits matches Some(b) && 0 < b <= limit)
}

} // verus!
