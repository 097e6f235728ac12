//! What the scanner looks for.

use vstd::prelude::*;

verus! {

/// Limits and preferences of a scan. Ratios are fractions of one, rates and
/// margins are percent, times are as their names say.
#[derive(Debug, Clone)]
pub struct LocalBazaarScanConfig<N> {
    pub min_profit_per_unit: N,
    pub min_total_profit: N,
    pub min_margin_percent: N,
    pub max_margin_percent: N,
    pub min_buy_volume: u64,
    pub min_sell_volume: u64,
    pub min_order_count: u64,
    pub min_moving_week: u64,
    pub max_order_value: u64,
    pub max_amount: u64,
    pub price_undercut: N,
    pub bazaar_tax_rate: N,
    pub max_concurrent_orders: usize,
    pub target_profit_per_hour: N,
    pub enable_classic_potato_book_flips: bool,
    pub total_capital: u64,
    pub active_capital_ratio: N,
    pub reserve_ratio: N,
    pub max_items: usize,
    pub max_capital_per_item: u64,
    pub min_roi_percent: N,
    pub target_roi_percent: N,
    pub min_volume_value_hour: N,
    pub preferred_volume_value_hour: N,
    pub market_participation_rate: N,
    pub conservative_market_participation_rate: N,
    pub history_window_minutes: u64,
    pub inventory_free_slots: u64,
    pub min_free_inventory_slots: u64,
    pub active_buy_order_count: u64,
    pub active_sell_order_count: u64,
    pub inventory_sellable_stacks: u64,
    pub max_pending_buy_stacks: u64,
    pub buy_sell_balance_limit: N,
    pub total_cost_lot_value: N,
    pub open_buy_capital: N,
    pub open_sell_value: N,
    pub max_cost_lot_capital_ratio: N,
    pub max_open_buy_capital_ratio: N,
    pub per_item_exposure_cap: u64,
    pub min_reprice_profit_improvement: N,
    pub min_reprice_interval_seconds: u64,
    pub max_reprices_per_item_per_hour: u64,
    pub reprice_cooldown_seconds: u64,
}

} // verus!
