//! Position limits and repricing rules.

use vstd::prelude::*;
use vstd::string::*;

use crate::bazaar_scanner::config::LocalBazaarScanConfig;
use crate::bazaar_tracker::performance::larger_of;
use crate::bazaar_tracker::selling::sell_after_tax;
use crate::number::{clamp, clamped, fraction, ratio, Number};

verus! {

/// Whether a new position in an item is taken.
#[derive(Debug, Clone, PartialEq, Eq)]
pub enum CandidateDecision {
    Accept,
    Reject(&'static str),
}

impl CandidateDecision {
    /// Why a position is not taken.
    pub open spec fn reason(self) -> Option<Seq<char>> {
        match self {
            CandidateDecision::Accept => None,
            CandidateDecision::Reject(reason) => Some(reason@),
        }
    }
}

/// Whether an order gets a new price.
#[derive(Debug, Clone, PartialEq)]
pub struct RepriceDecision {
    pub allowed: bool,
    pub reason: Option<&'static str>,
}

/// The text of an optional reason.
pub open spec fn reason_text(reason: Option<&'static str>) -> Option<Seq<char>> {
    match reason {
        Some(text) => Some(text@),
        None => None,
    }
}

/// The part of the capital that `share` allows, at least a twentieth and at
/// most all of it.
pub open spec fn capital_share<N: Number>(capital: N, share: N) -> N {
    capital.spec_times(clamped(share, ratio(5, 100), N::whole(1)))
}

/// Why no new position in an item is taken.
pub open spec fn position_limit<N: Number>(
    item_open_buy_capital: N,
    item_cost_lot_value: N,
    item_open_sell_value: N,
    total_open_buy_capital: N,
    total_cost_lot_value: N,
    total_open_sell_value: N,
    config: LocalBazaarScanConfig<N>,
) -> Option<Seq<char>> {
    let zero = N::whole(0);
    let capital = N::whole(larger_of(config.total_capital, 1));
    let item_cap = N::whole(
        if config.per_item_exposure_cap > 0 {
            config.per_item_exposure_cap
        } else {
            config.max_capital_per_item
        },
    );
    let item_total = item_open_buy_capital.spec_plus(item_cost_lot_value).spec_plus(
        item_open_sell_value,
    );
    let total = total_open_buy_capital.spec_plus(total_cost_lot_value).spec_plus(
        total_open_sell_value,
    );
    if capital_share(capital, config.max_cost_lot_capital_ratio).spec_below(
        total_cost_lot_value,
    ) {
        Some("TOO_MUCH_OPEN_COST_BASIS"@)
    } else if capital_share(capital, config.max_open_buy_capital_ratio).spec_below(
        total_open_buy_capital,
    ) {
        Some("TOO_MUCH_OPEN_CAPITAL"@)
    } else if capital_share(capital, config.active_capital_ratio).spec_below(total) {
        Some("POSITION_LIMIT"@)
    } else if item_cap.spec_at_most(item_total) {
        Some("POSITION_LIMIT"@)
    } else if zero.spec_below(item_cost_lot_value) || zero.spec_below(item_open_sell_value) {
        Some("COST_LOTS_ALREADY_OPEN"@)
    } else {
        None
    }
}

fn share_of<N: Number>(capital: N, share: N) -> (r: N)
    ensures
        r == capital_share(capital, share),
{
    capital.times(clamp(share, fraction(5, 100), N::from_u64(1)))
}

/// Decides whether a new position in an item is taken, from what is bound in
/// the item and in total.
pub fn evaluate_position_limits<N: Number>(
    item_open_buy_capital: N,
    item_cost_lot_value: N,
    item_open_sell_value: N,
    total_open_buy_capital: N,
    total_cost_lot_value: N,
    total_open_sell_value: N,
    config: &LocalBazaarScanConfig<N>,
) -> (r: CandidateDecision)
    ensures
        r.reason() == position_limit(
            item_open_buy_capital,
            item_cost_lot_value,
            item_open_sell_value,
            total_open_buy_capital,
            total_cost_lot_value,
            total_open_sell_value,
            *config,
        ),
{
    let total_capital: N = N::from_u64(
        if config.total_capital >= 1 {
            config.total_capital
        } else {
            1
        },
    );
    if share_of(total_capital, config.max_cost_lot_capital_ratio).below(total_cost_lot_value) {
        return CandidateDecision::Reject("TOO_MUCH_OPEN_COST_BASIS");
    }
    if share_of(total_capital, config.max_open_buy_capital_ratio).below(total_open_buy_capital) {
        return CandidateDecision::Reject("TOO_MUCH_OPEN_CAPITAL");
    }
    let active_limit = share_of(total_capital, config.active_capital_ratio);
    if active_limit.below(
        total_open_buy_capital.plus(total_cost_lot_value).plus(total_open_sell_value),
    ) {
        return CandidateDecision::Reject("POSITION_LIMIT");
    }
    let per_item_cap: N = N::from_u64(
        if config.per_item_exposure_cap > 0 {
            config.per_item_exposure_cap
        } else {
            config.max_capital_per_item
        },
    );
    if per_item_cap.at_most(
        item_open_buy_capital.plus(item_cost_lot_value).plus(item_open_sell_value),
    ) {
        return CandidateDecision::Reject("POSITION_LIMIT");
    }
    if N::from_u64(0).below(item_cost_lot_value) || N::from_u64(0).below(item_open_sell_value) {
        return CandidateDecision::Reject("COST_LOTS_ALREADY_OPEN");
    }
    CandidateDecision::Accept
}

/// Why an order may not be repriced yet, whatever its price.
pub open spec fn reprice_throttle<N>(
    order_age_seconds: u64,
    seconds_since_last_reprice: Option<u64>,
    reprices_this_hour: u64,
    config: LocalBazaarScanConfig<N>,
) -> Option<Seq<char>> {
    if order_age_seconds < config.min_reprice_interval_seconds {
        Some("ORDER_TOO_YOUNG"@)
    } else if seconds_since_last_reprice is Some && seconds_since_last_reprice->0
        < config.reprice_cooldown_seconds {
        Some("REPRICE_COOLDOWN"@)
    } else if reprices_this_hour >= config.max_reprices_per_item_per_hour {
        Some("TOO_MANY_REPRICES"@)
    } else {
        None
    }
}

fn throttle<N>(
    order_age_seconds: u64,
    seconds_since_last_reprice: Option<u64>,
    reprices_this_hour: u64,
    config: &LocalBazaarScanConfig<N>,
) -> (r: Option<&'static str>)
    ensures
        reason_text(r) == reprice_throttle(
            order_age_seconds,
            seconds_since_last_reprice,
            reprices_this_hour,
            *config,
        ),
{
    if order_age_seconds < config.min_reprice_interval_seconds {
        return Some("ORDER_TOO_YOUNG");
    }
    if let Some(elapsed) = seconds_since_last_reprice {
        if elapsed < config.reprice_cooldown_seconds {
            return Some("REPRICE_COOLDOWN");
        }
    }
    if reprices_this_hour >= config.max_reprices_per_item_per_hour {
        return Some("TOO_MANY_REPRICES");
    }
    None
}

/// Why a buy order is not repriced.
pub open spec fn reprice_block<N: Number>(
    order_age_seconds: u64,
    seconds_since_last_reprice: Option<u64>,
    reprices_this_hour: u64,
    old_expected_profit: N,
    new_expected_profit: N,
    has_open_cost_lots: bool,
    config: LocalBazaarScanConfig<N>,
) -> Option<Seq<char>> {
    match reprice_throttle(
        order_age_seconds,
        seconds_since_last_reprice,
        reprices_this_hour,
        config,
    ) {
        Some(reason) => Some(reason),
        None => if new_expected_profit.spec_minus(old_expected_profit).spec_below(
            config.min_reprice_profit_improvement,
        ) {
            Some("LOW_REPRICE_IMPROVEMENT"@)
        } else if new_expected_profit.spec_below(old_expected_profit.spec_times(ratio(70, 100))) {
            Some("PROFIT_EROSION"@)
        } else if has_open_cost_lots {
            Some("COST_LOTS_ALREADY_OPEN"@)
        } else {
            None
        },
    }
}

/// Decides whether a buy order gets a new price.
pub fn should_reprice<N: Number>(
    order_age_seconds: u64,
    seconds_since_last_reprice: Option<u64>,
    reprices_this_hour: u64,
    old_expected_profit: N,
    new_expected_profit: N,
    has_open_cost_lots: bool,
    config: &LocalBazaarScanConfig<N>,
) -> (r: RepriceDecision)
    ensures
        reason_text(r.reason) == reprice_block(
            order_age_seconds,
            seconds_since_last_reprice,
            reprices_this_hour,
            old_expected_profit,
            new_expected_profit,
            has_open_cost_lots,
            *config,
        ),
        r.allowed == (r.reason is None),
{
    let blocked = throttle(
        order_age_seconds,
        seconds_since_last_reprice,
        reprices_this_hour,
        config,
    );
    if blocked.is_some() {
        return RepriceDecision { allowed: false, reason: blocked };
    }
    if new_expected_profit.minus(old_expected_profit).below(config.min_reprice_profit_improvement) {
        return RepriceDecision { allowed: false, reason: Some("LOW_REPRICE_IMPROVEMENT") };
    }
    if new_expected_profit.below(old_expected_profit.times(fraction(70, 100))) {
        return RepriceDecision { allowed: false, reason: Some("PROFIT_EROSION") };
    }
    if has_open_cost_lots {
        return RepriceDecision { allowed: false, reason: Some("COST_LOTS_ALREADY_OPEN") };
    }
    RepriceDecision { allowed: true, reason: None }
}

/// A number above zero and not infinite.
pub open spec fn is_positive<N: Number>(x: N) -> bool {
    !x.spec_at_most(N::whole(0)) && x.spec_is_finite()
}

/// Why a sell order is not repriced.
pub open spec fn sell_reprice_block<N: Number>(
    order_age_seconds: u64,
    seconds_since_last_reprice: Option<u64>,
    reprices_this_hour: u64,
    current_price_per_unit: N,
    fresh_price_per_unit: N,
    fifo_cost_basis_total: N,
    amount: u64,
    config: LocalBazaarScanConfig<N>,
) -> Option<Seq<char>> {
    match reprice_throttle(
        order_age_seconds,
        seconds_since_last_reprice,
        reprices_this_hour,
        config,
    ) {
        Some(reason) => Some(reason),
        None => if amount == 0 || !is_positive(fifo_cost_basis_total) {
            Some("UNKNOWN_COST_BASIS"@)
        } else if !is_positive(fresh_price_per_unit) {
            Some("INVALID_SELL_PRICE"@)
        } else if current_price_per_unit.spec_at_most(fresh_price_per_unit) {
            Some("SELL_NOT_OVERPRICED"@)
        } else if current_price_per_unit.spec_minus(fresh_price_per_unit).spec_times(
            N::whole(amount),
        ).spec_below(config.min_reprice_profit_improvement.spec_larger(N::whole(1))) {
            Some("LOW_SELL_PRICE_MOVEMENT"@)
        } else if sell_after_tax(fresh_price_per_unit, amount, config.bazaar_tax_rate).spec_at_most(
            fifo_cost_basis_total,
        ) {
            Some("NEGATIVE_EXPECTED_PROFIT"@)
        } else {
            None
        },
    }
}

/// Decides whether a sell order gets a lower price.
pub fn should_reprice_sell<N: Number>(
    order_age_seconds: u64,
    seconds_since_last_reprice: Option<u64>,
    reprices_this_hour: u64,
    current_price_per_unit: N,
    fresh_price_per_unit: N,
    fifo_cost_basis_total: N,
    amount: u64,
    config: &LocalBazaarScanConfig<N>,
) -> (r: RepriceDecision)
    ensures
        reason_text(r.reason) == sell_reprice_block(
            order_age_seconds,
            seconds_since_last_reprice,
            reprices_this_hour,
            current_price_per_unit,
            fresh_price_per_unit,
            fifo_cost_basis_total,
            amount,
            *config,
        ),
        r.allowed == (r.reason is None),
{
    let blocked = throttle(
        order_age_seconds,
        seconds_since_last_reprice,
        reprices_this_hour,
        config,
    );
    if blocked.is_some() {
        return RepriceDecision { allowed: false, reason: blocked };
    }
    let zero = N::from_u64(0);
    if amount == 0 || fifo_cost_basis_total.at_most(zero) || !fifo_cost_basis_total.is_finite() {
        return RepriceDecision { allowed: false, reason: Some("UNKNOWN_COST_BASIS") };
    }
    if fresh_price_per_unit.at_most(zero) || !fresh_price_per_unit.is_finite() {
        return RepriceDecision { allowed: false, reason: Some("INVALID_SELL_PRICE") };
    }
    if current_price_per_unit.at_most(fresh_price_per_unit) {
        return RepriceDecision { allowed: false, reason: Some("SELL_NOT_OVERPRICED") };
    }
    let total_price_movement = current_price_per_unit.minus(fresh_price_per_unit).times(
        N::from_u64(amount),
    );
    if total_price_movement.below(config.min_reprice_profit_improvement.larger(N::from_u64(1))) {
        return RepriceDecision { allowed: false, reason: Some("LOW_SELL_PRICE_MOVEMENT") };
    }
    let tax_multiplier = N::from_u64(1).minus(
        config.bazaar_tax_rate.larger(zero).over(N::from_u64(100)),
    );
    let fresh_after_tax = fresh_price_per_unit.times(N::from_u64(amount)).times(tax_multiplier);
    if fresh_after_tax.at_most(fifo_cost_basis_total) {
        return RepriceDecision { allowed: false, reason: Some("NEGATIVE_EXPECTED_PROFIT") };
    }
    RepriceDecision { allowed: true, reason: None }
}

/// No position is added to an item of which lots are held or sells are open.
pub proof fn positions_are_not_stacked<N: Number>(
    item_open_buy_capital: N,
    item_cost_lot_value: N,
    item_open_sell_value: N,
    total_open_buy_capital: N,
    total_cost_lot_value: N,
    total_open_sell_value: N,
    config: LocalBazaarScanConfig<N>,
)
    requires
        N::whole(0).spec_below(item_cost_lot_value) || N::whole(0).spec_below(item_open_sell_value),
    ensures
        position_limit(
            item_open_buy_capital,
            item_cost_lot_value,
            item_open_sell_value,
            total_open_buy_capital,
            total_cost_lot_value,
            total_open_sell_value,
            config,
        ) is Some,
{
}

/// A sell order is repriced only downwards, and only as long as it still earns
/// more than its lots have cost.
pub proof fn repriced_sells_stay_profitable<N: Number>(
    order_age_seconds: u64,
    seconds_since_last_reprice: Option<u64>,
    reprices_this_hour: u64,
    current_price_per_unit: N,
    fresh_price_per_unit: N,
    fifo_cost_basis_total: N,
    amount: u64,
    config: LocalBazaarScanConfig<N>,
)
    requires
        sell_reprice_block(
            order_age_seconds,
            seconds_since_last_reprice,
            reprices_this_hour,
            current_price_per_unit,
            fresh_price_per_unit,
            fifo_cost_basis_total,
            amount,
            config,
        ) is None,
    ensures
        !current_price_per_unit.spec_at_most(fresh_price_per_unit),
        !sell_after_tax(fresh_price_per_unit, amount, config.bazaar_tax_rate).spec_at_most(
            fifo_cost_basis_total,
        ),
{
}

/// Within the minimum interval, within the cooldown and beyond the hourly
/// number no order is repriced, however much it would gain.
pub proof fn repricing_is_throttled<N: Number>(
    order_age_seconds: u64,
    seconds_since_last_reprice: Option<u64>,
    reprices_this_hour: u64,
    old_expected_profit: N,
    new_expected_profit: N,
    has_open_cost_lots: bool,
    config: LocalBazaarScanConfig<N>,
)
    requires
        order_age_seconds < config.min_reprice_interval_seconds || (seconds_since_last_reprice
            is Some && seconds_since_last_reprice->0 < config.reprice_cooldown_seconds)
            || reprices_this_hour >= config.max_reprices_per_item_per_hour,
    ensures
        reprice_block(
            order_age_seconds,
            seconds_since_last_reprice,
            reprices_this_hour,
            old_expected_profit,
            new_expected_profit,
            has_open_cost_lots,
            config,
        ) is Some,
{
}

} // verus!
