//! What the tracker keeps and reports.

use vstd::prelude::*;
use vstd::string::*;

use crate::bazaar_tracker::item_key::normalize_for_match;
use crate::listing::Listing;
use crate::number::Number;
use crate::text::same_text;

verus! {

/// The text of an optional string.
pub open spec fn option_text(s: Option<String>) -> Option<Seq<char>> {
    match s {
        Some(t) => Some(t@),
        None => None,
    }
}

pub fn copy_option_text(s: &Option<String>) -> (r: Option<String>)
    ensures
        option_text(r) == option_text(*s),
{
    match s {
        Some(t) => Some(t.clone()),
        None => None,
    }
}

/// A single tracked bazaar order.
#[derive(Debug, Clone, PartialEq)]
pub struct TrackedBazaarOrder<N> {
    pub item_name: String,
    pub amount: u64,
    pub price_per_unit: N,
    pub is_buy_order: bool,
    /// `"open"` or `"filled"`.
    pub status: String,
    /// Unix timestamp (seconds) when the order was placed.
    pub placed_at: u64,
}

/// The contents of a tracked order.
pub struct OrderRecord<N> {
    pub item_name: Seq<char>,
    pub amount: u64,
    pub price_per_unit: N,
    pub is_buy_order: bool,
    pub status: Seq<char>,
    pub placed_at: u64,
}

impl<N> OrderRecord<N> {
    pub open spec fn is_open(self) -> bool {
        self.status == "open"@
    }

    pub open spec fn is_filled(self) -> bool {
        self.status == "filled"@
    }

    /// The order is still listed in the bazaar.
    pub open spec fn is_active(self) -> bool {
        self.is_open() || self.is_filled()
    }

    /// The key of the ordered item.
    pub open spec fn key(self) -> Seq<char> {
        crate::bazaar_tracker::item_key::match_key(self.item_name)
    }

    /// The order is for the item `key`, on the given side.
    pub open spec fn is_for(self, key: Seq<char>, is_buy_order: bool) -> bool {
        self.is_buy_order == is_buy_order && self.key() == key
    }

    /// The order was placed at least `max_age_secs` before `now`.
    pub open spec fn is_stale(self, now: u64, max_age_secs: u64) -> bool {
        now.saturating_sub(self.placed_at) >= max_age_secs
    }

    /// The order was placed more than `max_age_secs` before `now`.
    pub open spec fn is_older_than(self, now: u64, max_age_secs: u64) -> bool {
        now.saturating_sub(self.placed_at) > max_age_secs
    }
}

impl<N: Number> OrderRecord<N> {
    /// Price times amount.
    pub open spec fn value(self) -> N {
        self.price_per_unit.spec_times(N::whole(self.amount))
    }
}

impl<N> View for TrackedBazaarOrder<N> {
    type V = OrderRecord<N>;

    open spec fn view(&self) -> OrderRecord<N> {
        OrderRecord {
            item_name: self.item_name@,
            amount: self.amount,
            price_per_unit: self.price_per_unit,
            is_buy_order: self.is_buy_order,
            status: self.status@,
            placed_at: self.placed_at,
        }
    }
}

/// The contents of a list of orders.
pub open spec fn order_records<N>(orders: Seq<TrackedBazaarOrder<N>>) -> Seq<OrderRecord<N>> {
    orders.map_values(|o: TrackedBazaarOrder<N>| o@)
}

impl<N: Number> TrackedBazaarOrder<N> {
    pub fn is_filled(&self) -> (r: bool)
        ensures
            r == self@.is_filled(),
    {
        same_text(self.status.as_str(), "filled")
    }

    pub fn is_open(&self) -> (r: bool)
        ensures
            r == self@.is_open(),
    {
        same_text(self.status.as_str(), "open")
    }

    pub fn is_active(&self) -> (r: bool)
        ensures
            r == self@.is_active(),
    {
        self.is_open() || self.is_filled()
    }

    /// Whether the order is for the item `key`, on the given side.
    pub fn is_for(&self, key: &str, is_buy_order: bool) -> (r: bool)
        ensures
            r == self@.is_for(key@, is_buy_order),
    {
        self.is_buy_order == is_buy_order && same_text(
            normalize_for_match(self.item_name.as_str()).as_str(),
            key,
        )
    }

    pub fn is_stale(&self, now: u64, max_age_secs: u64) -> (r: bool)
        ensures
            r == self@.is_stale(now, max_age_secs),
    {
        now.saturating_sub(self.placed_at) >= max_age_secs
    }

    pub fn is_older_than(&self, now: u64, max_age_secs: u64) -> (r: bool)
        ensures
            r == self@.is_older_than(now, max_age_secs),
    {
        now.saturating_sub(self.placed_at) > max_age_secs
    }

    /// Price times amount.
    pub fn value(&self) -> (r: N)
        ensures
            r == self@.value(),
    {
        self.price_per_unit.times(N::from_u64(self.amount))
    }

    /// The same order again.
    pub fn copy(&self) -> (r: Self)
        ensures
            r@ == self@,
    {
        TrackedBazaarOrder {
            item_name: self.item_name.clone(),
            amount: self.amount,
            price_per_unit: self.price_per_unit,
            is_buy_order: self.is_buy_order,
            status: self.status.clone(),
            placed_at: self.placed_at,
        }
    }
}

/// One collected buy order: so many units at one price.
#[derive(Debug, Clone, Copy, PartialEq)]
pub struct BuyCostLot<N> {
    pub price_per_unit: N,
    pub amount: u64,
    pub collected_at: u64,
}

/// The part of a lot that a sale used up.
#[derive(Debug, Clone, Copy, PartialEq)]
pub struct BuyCostLotUsage<N> {
    pub price_per_unit: N,
    pub amount: u64,
    pub total_cost: N,
}

/// Why a sell order is not placed.
#[derive(Debug, Clone, PartialEq, Eq)]
pub enum SellBlockReason {
    NegativeExpectedProfit,
    UnknownCostBasis,
    InvalidSell,
}

impl SellBlockReason {
    /// The name of the reason.
    pub open spec fn name(self) -> Seq<char> {
        match self {
            SellBlockReason::NegativeExpectedProfit => "NEGATIVE_EXPECTED_PROFIT"@,
            SellBlockReason::UnknownCostBasis => "UNKNOWN_COST_BASIS"@,
            SellBlockReason::InvalidSell => "INVALID_SELL"@,
        }
    }

    pub fn as_str(&self) -> (r: &'static str)
        ensures
            r@ == self.name(),
    {
        match self {
            SellBlockReason::NegativeExpectedProfit => "NEGATIVE_EXPECTED_PROFIT",
            SellBlockReason::UnknownCostBasis => "UNKNOWN_COST_BASIS",
            SellBlockReason::InvalidSell => "INVALID_SELL",
        }
    }
}

/// The answer to whether a sell order may be placed.
#[derive(Debug, Clone, PartialEq)]
pub struct SellProfitCheck<N> {
    pub allowed: bool,
    pub reason: Option<SellBlockReason>,
    pub expected_sell_after_tax: N,
    pub fifo_cost_basis_total: N,
    pub amount: u64,
}

/// How an item has performed, and whether it is on cooldown.
#[derive(Debug, Clone)]
pub struct ItemPerformance<N> {
    pub item_name: String,
    pub product_id: String,
    pub buy_orders_placed: u64,
    pub buy_orders_filled: u64,
    pub buy_orders_cancelled: u64,
    pub sell_orders_placed: u64,
    pub sell_orders_filled: u64,
    pub sell_orders_cancelled: u64,
    pub successful_flips: u64,
    pub failed_flips: u64,
    pub realized_profit_total: i64,
    pub realized_profit_last_10m: i64,
    pub realized_profit_last_30m: i64,
    pub realized_profit_last_60m: i64,
    pub avg_realized_profit_per_flip: N,
    pub avg_realized_profit_per_hour: N,
    pub avg_buy_fill_seconds: N,
    pub avg_sell_fill_seconds: N,
    pub avg_total_cycle_seconds: N,
    pub avg_hold_seconds: N,
    pub current_open_buy_capital: N,
    pub current_open_sell_value: N,
    pub current_cost_lot_value: N,
    pub max_cost_lot_age_seconds: u64,
    pub reprice_count: u64,
    pub cancel_count: u64,
    pub failed_search_count: u64,
    pub cannot_afford_count: u64,
    pub unknown_cost_basis_count: u64,
    pub negative_profit_block_count: u64,
    pub last_success_timestamp: Option<u64>,
    pub last_failure_timestamp: Option<u64>,
    pub cooldown_until: Option<u64>,
    pub block_reason: Option<String>,
}

/// The contents of an item's performance.
pub struct PerformanceRecord<N> {
    pub item_name: Seq<char>,
    pub product_id: Seq<char>,
    pub buy_orders_placed: u64,
    pub buy_orders_filled: u64,
    pub buy_orders_cancelled: u64,
    pub sell_orders_placed: u64,
    pub sell_orders_filled: u64,
    pub sell_orders_cancelled: u64,
    pub successful_flips: u64,
    pub failed_flips: u64,
    pub realized_profit_total: i64,
    pub realized_profit_last_10m: i64,
    pub realized_profit_last_30m: i64,
    pub realized_profit_last_60m: i64,
    pub avg_realized_profit_per_flip: N,
    pub avg_realized_profit_per_hour: N,
    pub avg_buy_fill_seconds: N,
    pub avg_sell_fill_seconds: N,
    pub avg_total_cycle_seconds: N,
    pub avg_hold_seconds: N,
    pub current_open_buy_capital: N,
    pub current_open_sell_value: N,
    pub current_cost_lot_value: N,
    pub max_cost_lot_age_seconds: u64,
    pub reprice_count: u64,
    pub cancel_count: u64,
    pub failed_search_count: u64,
    pub cannot_afford_count: u64,
    pub unknown_cost_basis_count: u64,
    pub negative_profit_block_count: u64,
    pub last_success_timestamp: Option<u64>,
    pub last_failure_timestamp: Option<u64>,
    pub cooldown_until: Option<u64>,
    pub block_reason: Option<Seq<char>>,
}

impl<N> View for ItemPerformance<N> {
    type V = PerformanceRecord<N>;

    open spec fn view(&self) -> PerformanceRecord<N> {
        PerformanceRecord {
            item_name: self.item_name@,
            product_id: self.product_id@,
            buy_orders_placed: self.buy_orders_placed,
            buy_orders_filled: self.buy_orders_filled,
            buy_orders_cancelled: self.buy_orders_cancelled,
            sell_orders_placed: self.sell_orders_placed,
            sell_orders_filled: self.sell_orders_filled,
            sell_orders_cancelled: self.sell_orders_cancelled,
            successful_flips: self.successful_flips,
            failed_flips: self.failed_flips,
            realized_profit_total: self.realized_profit_total,
            realized_profit_last_10m: self.realized_profit_last_10m,
            realized_profit_last_30m: self.realized_profit_last_30m,
            realized_profit_last_60m: self.realized_profit_last_60m,
            avg_realized_profit_per_flip: self.avg_realized_profit_per_flip,
            avg_realized_profit_per_hour: self.avg_realized_profit_per_hour,
            avg_buy_fill_seconds: self.avg_buy_fill_seconds,
            avg_sell_fill_seconds: self.avg_sell_fill_seconds,
            avg_total_cycle_seconds: self.avg_total_cycle_seconds,
            avg_hold_seconds: self.avg_hold_seconds,
            current_open_buy_capital: self.current_open_buy_capital,
            current_open_sell_value: self.current_open_sell_value,
            current_cost_lot_value: self.current_cost_lot_value,
            max_cost_lot_age_seconds: self.max_cost_lot_age_seconds,
            reprice_count: self.reprice_count,
            cancel_count: self.cancel_count,
            failed_search_count: self.failed_search_count,
            cannot_afford_count: self.cannot_afford_count,
            unknown_cost_basis_count: self.unknown_cost_basis_count,
            negative_profit_block_count: self.negative_profit_block_count,
            last_success_timestamp: self.last_success_timestamp,
            last_failure_timestamp: self.last_failure_timestamp,
            cooldown_until: self.cooldown_until,
            block_reason: option_text(self.block_reason),
        }
    }
}

/// The performance of an item of which nothing is known.
pub open spec fn blank_performance<N: Number>() -> PerformanceRecord<N> {
    PerformanceRecord {
        item_name: Seq::<char>::empty(),
        product_id: Seq::<char>::empty(),
        buy_orders_placed: 0,
        buy_orders_filled: 0,
        buy_orders_cancelled: 0,
        sell_orders_placed: 0,
        sell_orders_filled: 0,
        sell_orders_cancelled: 0,
        successful_flips: 0,
        failed_flips: 0,
        realized_profit_total: 0,
        realized_profit_last_10m: 0,
        realized_profit_last_30m: 0,
        realized_profit_last_60m: 0,
        avg_realized_profit_per_flip: N::whole(0),
        avg_realized_profit_per_hour: N::whole(0),
        avg_buy_fill_seconds: N::whole(0),
        avg_sell_fill_seconds: N::whole(0),
        avg_total_cycle_seconds: N::whole(0),
        avg_hold_seconds: N::whole(0),
        current_open_buy_capital: N::whole(0),
        current_open_sell_value: N::whole(0),
        current_cost_lot_value: N::whole(0),
        max_cost_lot_age_seconds: 0,
        reprice_count: 0,
        cancel_count: 0,
        failed_search_count: 0,
        cannot_afford_count: 0,
        unknown_cost_basis_count: 0,
        negative_profit_block_count: 0,
        last_success_timestamp: None,
        last_failure_timestamp: None,
        cooldown_until: None,
        block_reason: None,
    }
}

impl<N: Number> Default for ItemPerformance<N> {
    fn default() -> (r: Self)
        ensures
            r@ == blank_performance::<N>(),
    {
        ItemPerformance {
            item_name: String::new(),
            product_id: String::new(),
            buy_orders_placed: 0,
            buy_orders_filled: 0,
            buy_orders_cancelled: 0,
            sell_orders_placed: 0,
            sell_orders_filled: 0,
            sell_orders_cancelled: 0,
            successful_flips: 0,
            failed_flips: 0,
            realized_profit_total: 0,
            realized_profit_last_10m: 0,
            realized_profit_last_30m: 0,
            realized_profit_last_60m: 0,
            avg_realized_profit_per_flip: N::from_u64(0),
            avg_realized_profit_per_hour: N::from_u64(0),
            avg_buy_fill_seconds: N::from_u64(0),
            avg_sell_fill_seconds: N::from_u64(0),
            avg_total_cycle_seconds: N::from_u64(0),
            avg_hold_seconds: N::from_u64(0),
            current_open_buy_capital: N::from_u64(0),
            current_open_sell_value: N::from_u64(0),
            current_cost_lot_value: N::from_u64(0),
            max_cost_lot_age_seconds: 0,
            reprice_count: 0,
            cancel_count: 0,
            failed_search_count: 0,
            cannot_afford_count: 0,
            unknown_cost_basis_count: 0,
            negative_profit_block_count: 0,
            last_success_timestamp: None,
            last_failure_timestamp: None,
            cooldown_until: None,
            block_reason: None,
        }
    }
}

impl<N: Number> ItemPerformance<N> {
    /// The same performance again.
    pub fn copy(&self) -> (r: Self)
        ensures
            r@ == self@,
    {
        ItemPerformance {
            item_name: self.item_name.clone(),
            product_id: self.product_id.clone(),
            buy_orders_placed: self.buy_orders_placed,
            buy_orders_filled: self.buy_orders_filled,
            buy_orders_cancelled: self.buy_orders_cancelled,
            sell_orders_placed: self.sell_orders_placed,
            sell_orders_filled: self.sell_orders_filled,
            sell_orders_cancelled: self.sell_orders_cancelled,
            successful_flips: self.successful_flips,
            failed_flips: self.failed_flips,
            realized_profit_total: self.realized_profit_total,
            realized_profit_last_10m: self.realized_profit_last_10m,
            realized_profit_last_30m: self.realized_profit_last_30m,
            realized_profit_last_60m: self.realized_profit_last_60m,
            avg_realized_profit_per_flip: self.avg_realized_profit_per_flip,
            avg_realized_profit_per_hour: self.avg_realized_profit_per_hour,
            avg_buy_fill_seconds: self.avg_buy_fill_seconds,
            avg_sell_fill_seconds: self.avg_sell_fill_seconds,
            avg_total_cycle_seconds: self.avg_total_cycle_seconds,
            avg_hold_seconds: self.avg_hold_seconds,
            current_open_buy_capital: self.current_open_buy_capital,
            current_open_sell_value: self.current_open_sell_value,
            current_cost_lot_value: self.current_cost_lot_value,
            max_cost_lot_age_seconds: self.max_cost_lot_age_seconds,
            reprice_count: self.reprice_count,
            cancel_count: self.cancel_count,
            failed_search_count: self.failed_search_count,
            cannot_afford_count: self.cannot_afford_count,
            unknown_cost_basis_count: self.unknown_cost_basis_count,
            negative_profit_block_count: self.negative_profit_block_count,
            last_success_timestamp: self.last_success_timestamp,
            last_failure_timestamp: self.last_failure_timestamp,
            cooldown_until: self.cooldown_until,
            block_reason: copy_option_text(&self.block_reason),
        }
    }
}

/// How much of a sale's cost is known.
#[derive(Debug, Clone, PartialEq, Eq)]
pub enum CostBasisStatus {
    Known,
    PartialKnownCostBasis,
    UnknownCostBasis,
}

impl CostBasisStatus {
    /// The name of the status.
    pub open spec fn name(self) -> Seq<char> {
        match self {
            CostBasisStatus::Known => "KNOWN"@,
            CostBasisStatus::PartialKnownCostBasis => "PARTIAL_KNOWN_COST_BASIS"@,
            CostBasisStatus::UnknownCostBasis => "UNKNOWN_COST_BASIS"@,
        }
    }

    pub fn as_str(&self) -> (r: &'static str)
        ensures
            r@ == self.name(),
    {
        match self {
            CostBasisStatus::Known => "KNOWN",
            CostBasisStatus::PartialKnownCostBasis => "PARTIAL_KNOWN_COST_BASIS",
            CostBasisStatus::UnknownCostBasis => "UNKNOWN_COST_BASIS",
        }
    }
}

/// What a collected sell order earned, and from which lots it was served.
#[derive(Debug, Clone)]
pub struct SellProfitAudit<N> {
    pub item_name: String,
    pub sold_amount: u64,
    pub claimed_coins_after_tax: N,
    pub gross_list_value: Option<N>,
    pub lots_used: Vec<BuyCostLotUsage<N>>,
    pub cost_basis_total: N,
    pub cost_basis_status: CostBasisStatus,
    pub realized_profit: i64,
    pub reason: Option<String>,
}

/// The contents of a sell audit.
pub struct SellAuditRecord<N> {
    pub item_name: Seq<char>,
    pub sold_amount: u64,
    pub claimed_coins_after_tax: N,
    pub gross_list_value: Option<N>,
    pub lots_used: Seq<BuyCostLotUsage<N>>,
    pub cost_basis_total: N,
    pub cost_basis_status: CostBasisStatus,
    pub realized_profit: i64,
    pub reason: Option<Seq<char>>,
}

impl<N> View for SellProfitAudit<N> {
    type V = SellAuditRecord<N>;

    open spec fn view(&self) -> SellAuditRecord<N> {
        SellAuditRecord {
            item_name: self.item_name@,
            sold_amount: self.sold_amount,
            claimed_coins_after_tax: self.claimed_coins_after_tax,
            gross_list_value: self.gross_list_value,
            lots_used: self.lots_used@,
            cost_basis_total: self.cost_basis_total,
            cost_basis_status: self.cost_basis_status,
            realized_profit: self.realized_profit,
            reason: option_text(self.reason),
        }
    }
}

impl<N: Number> SellProfitAudit<N> {
    /// The same audit again.
    pub fn copy(&self) -> (r: Self)
        ensures
            r@ == self@,
    {
        let mut lots_used: Vec<BuyCostLotUsage<N>> = Vec::new();
        let mut i: usize = 0;
        while i < self.lots_used.len()
            invariant
                i <= self.lots_used.len(),
                lots_used@ == self.lots_used@.take(i as int),
            decreases self.lots_used.len() - i,
        {
            lots_used.push(self.lots_used[i]);
            assert(self.lots_used@.take(i + 1) == self.lots_used@.take(i as int).push(
                self.lots_used@[i as int],
            ));
            i = i + 1;
        }
        assert(self.lots_used@.take(i as int) == self.lots_used@);
        SellProfitAudit {
            item_name: self.item_name.clone(),
            sold_amount: self.sold_amount,
            claimed_coins_after_tax: self.claimed_coins_after_tax,
            gross_list_value: self.gross_list_value,
            lots_used,
            cost_basis_total: self.cost_basis_total,
            cost_basis_status: match self.cost_basis_status {
                CostBasisStatus::Known => CostBasisStatus::Known,
                CostBasisStatus::PartialKnownCostBasis => CostBasisStatus::PartialKnownCostBasis,
                CostBasisStatus::UnknownCostBasis => CostBasisStatus::UnknownCostBasis,
            },
            realized_profit: self.realized_profit,
            reason: copy_option_text(&self.reason),
        }
    }
}

/// The text of an optional audit.
pub open spec fn option_audit<N>(a: Option<SellProfitAudit<N>>) -> Option<SellAuditRecord<N>> {
    match a {
        Some(audit) => Some(audit@),
        None => None,
    }
}

/// The state of the order book and of the profit accounts at one moment.
#[derive(Debug, Clone)]
pub struct BazaarProfitAuditSnapshot<N> {
    pub current_fifo_realized_profit_total: i64,
    pub unknown_cost_basis_sell_total_count: u64,
    pub ignored_legacy_profit_total: i64,
    pub open_buy_capital: N,
    pub open_sell_value: N,
    pub active_buy_orders: usize,
    pub active_sell_orders: usize,
    pub remaining_cost_lots: Listing<Vec<BuyCostLot<N>>>,
    pub remaining_cost_lot_value: N,
    pub estimated_sell_value_after_tax: N,
    pub estimated_unrealized_profit: N,
    pub stale_buy_orders: usize,
    pub stale_sell_orders: usize,
    pub items_waiting_for_sell: Vec<String>,
    pub blocked_items_waiting_for_sell: Vec<String>,
    pub blocked_cost_lot_value: N,
    pub actionable_cost_lot_value: N,
    pub last_sell_audit_at: Option<u64>,
    pub web_graph_source: String,
    pub last_sell_audit: Option<SellProfitAudit<N>>,
    pub item_performance: Listing<ItemPerformance<N>>,
    pub cleanup_state: String,
}

} // verus!
