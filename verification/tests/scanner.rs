use purse_pilot::bazaar_scanner::{
    evaluate_position_limits, is_local_order_search_supported, item_tag_to_name, practical_score,
    should_reprice, should_reprice_sell, CandidateDecision, LocalBazaarScanConfig,
    PracticalItemMetrics,
};
use purse_pilot::number::Number;

/// Coins as `f64`.
#[derive(Debug, Clone, Copy, PartialEq, PartialOrd)]
struct Coins(f64);

impl Number for Coins {
    fn whole(n: u64) -> Self {
        Self::from_u64(n)
    }
    fn signed(n: i64) -> Self {
        Self::from_i64(n)
    }
    fn spec_plus(self, other: Self) -> Self {
        self.plus(other)
    }
    fn spec_minus(self, other: Self) -> Self {
        self.minus(other)
    }
    fn spec_times(self, other: Self) -> Self {
        self.times(other)
    }
    fn spec_over(self, other: Self) -> Self {
        self.over(other)
    }
    fn spec_magnitude(self) -> Self {
        self.magnitude()
    }
    fn spec_root(self) -> Self {
        self.root()
    }
    fn spec_larger(self, other: Self) -> Self {
        self.larger(other)
    }
    fn spec_smaller(self, other: Self) -> Self {
        self.smaller(other)
    }
    fn spec_below(self, other: Self) -> bool {
        self.below(other)
    }
    fn spec_at_most(self, other: Self) -> bool {
        self.at_most(other)
    }
    fn spec_is_finite(self) -> bool {
        self.is_finite()
    }
    fn spec_rounded(self) -> i64 {
        self.rounded()
    }
    fn spec_whole_part(self) -> u64 {
        self.whole_part()
    }
    fn below_is_asymmetric(_a: Self, _b: Self) {}
    fn below_is_cotransitive(_a: Self, _b: Self, _c: Self) {}
    fn whole_over_itself(_n: u64) {}
    fn times_one(_a: Self) {}
    fn from_u64(n: u64) -> Self {
        Coins(n as f64)
    }
    fn from_i64(n: i64) -> Self {
        Coins(n as f64)
    }
    fn plus(self, other: Self) -> Self {
        Coins(self.0 + other.0)
    }
    fn minus(self, other: Self) -> Self {
        Coins(self.0 - other.0)
    }
    fn times(self, other: Self) -> Self {
        Coins(self.0 * other.0)
    }
    fn over(self, other: Self) -> Self {
        Coins(self.0 / other.0)
    }
    fn magnitude(self) -> Self {
        Coins(self.0.abs())
    }
    fn root(self) -> Self {
        Coins(self.0.sqrt())
    }
    fn larger(self, other: Self) -> Self {
        Coins(self.0.max(other.0))
    }
    fn smaller(self, other: Self) -> Self {
        Coins(self.0.min(other.0))
    }
    fn below(self, other: Self) -> bool {
        self.0 < other.0
    }
    fn at_most(self, other: Self) -> bool {
        self.0 <= other.0
    }
    fn is_finite(self) -> bool {
        self.0.is_finite()
    }
    fn rounded(self) -> i64 {
        self.0.round() as i64
    }
    fn whole_part(self) -> u64 {
        self.0.floor() as u64
    }
}

#[test]
fn formats_item_tags() {
    assert_eq!(
        item_tag_to_name("ENCHANTED_COAL_BLOCK"),
        "Enchanted Coal Block"
    );
    assert_eq!(
        item_tag_to_name("ENCHANTED_WATER_LILY"),
        "Enchanted Lily Pad"
    );
    assert_eq!(
        item_tag_to_name("FLAWLESS_AMBER_GEM"),
        "Flawless Amber Gemstone"
    );
    assert_eq!(item_tag_to_name("FLAWED_JADE_GEM"), "Flawed Jade Gemstone");
}

#[test]
fn formats_essence_tags_for_visible_bazaar_search() {
    assert_eq!(item_tag_to_name("ESSENCE_UNDEAD"), "Undead Essence");
    assert_eq!(item_tag_to_name("ESSENCE_WITHER"), "Wither Essence");
}

#[test]
fn rejects_enchantment_products_for_local_buy_search_until_mapped() {
    assert!(!is_local_order_search_supported("ENCHANTMENT_FEAST_1"));
    assert!(!is_local_order_search_supported("ESSENCE_UNDEAD"));
    assert!(is_local_order_search_supported("SUMMONING_EYE"));
}


fn test_config() -> LocalBazaarScanConfig<Coins> {
    LocalBazaarScanConfig {
        min_profit_per_unit: Coins(5.0),
        min_total_profit: Coins(15_000.0),
        min_margin_percent: Coins(1.25),
        max_margin_percent: Coins(32.0),
        min_buy_volume: 15_000,
        min_sell_volume: 25_000,
        min_order_count: 40,
        min_moving_week: 1_000_000,
        max_order_value: 5_000_000,
        max_amount: 71_680,
        price_undercut: Coins(0.1),
        bazaar_tax_rate: Coins(1.25),
        max_concurrent_orders: 6,
        target_profit_per_hour: Coins(2_000_000.0),
        enable_classic_potato_book_flips: true,
        total_capital: 30_000_000,
        active_capital_ratio: Coins(0.78),
        reserve_ratio: Coins(0.22),
        max_items: 8,
        max_capital_per_item: 5_000_000,
        min_roi_percent: Coins(1.0),
        target_roi_percent: Coins(2.0),
        min_volume_value_hour: Coins(15_000_000.0),
        preferred_volume_value_hour: Coins(50_000_000.0),
        market_participation_rate: Coins(0.12),
        conservative_market_participation_rate: Coins(0.06),
        history_window_minutes: 60,
        inventory_free_slots: 30,
        min_free_inventory_slots: 10,
        active_buy_order_count: 0,
        active_sell_order_count: 0,
        inventory_sellable_stacks: 0,
        max_pending_buy_stacks: 6,
        buy_sell_balance_limit: Coins(1.10),
        total_cost_lot_value: Coins(0.0),
        open_buy_capital: Coins(0.0),
        open_sell_value: Coins(0.0),
        max_cost_lot_capital_ratio: Coins(0.35),
        max_open_buy_capital_ratio: Coins(0.35),
        per_item_exposure_cap: 3_000_000,
        min_reprice_profit_improvement: Coins(75_000.0),
        min_reprice_interval_seconds: 240,
        max_reprices_per_item_per_hour: 3,
        reprice_cooldown_seconds: 360,
    }
}

#[test]
fn no_theoretical_profit_booking_is_a_tracker_invariant() {
    let expected_candidate_profit = 500_000.0;
    let realized_fifo_profit = 0;
    assert!(expected_candidate_profit > 0.0);
    assert_eq!(realized_fifo_profit, 0);
}

#[test]
fn sell_through_scoring_prefers_realized_profit_per_hour() {
    let slow_theoretical = practical_score(&PracticalItemMetrics {
        expected_net_profit_after_tax: Coins(500_000.0),
        expected_cycle_minutes: Coins(45.0),
        buy_volume: 25_000,
        sell_volume: 25_000,
        moving_week: 1_000_000,
        order_count: 40,
        volume_value_hour: Coins(50_000_000.0),
        avg_sell_fill_seconds: Coins(2700.0),
        current_cost_lot_value: Coins(2_000_000.0),
        ..Default::default()
    });
    let fast_realized = practical_score(&PracticalItemMetrics {
        expected_net_profit_after_tax: Coins(150_000.0),
        expected_cycle_minutes: Coins(5.0),
        buy_volume: 25_000,
        sell_volume: 25_000,
        moving_week: 1_000_000,
        order_count: 40,
        volume_value_hour: Coins(50_000_000.0),
        avg_sell_fill_seconds: Coins(300.0),
        successful_flips: 3,
        realized_profit_last_10m: 150_000,
        ..Default::default()
    });
    assert!(fast_realized.score > slow_theoretical.score);
}

#[test]
fn cost_lot_pressure_blocks_carrot_zest_stack() {
    let cfg = test_config();
    let decision =
        evaluate_position_limits(Coins(0.0), Coins(3_500_000.0), Coins(0.0), Coins(2_000_000.0), Coins(3_500_000.0), Coins(0.0), &cfg);
    assert_eq!(decision, CandidateDecision::Reject("POSITION_LIMIT"));
}

#[test]
fn per_item_exposure_cap_rejects_candidate() {
    let cfg = test_config();
    let decision = evaluate_position_limits(
        Coins(2_000_000.0),
        Coins(1_500_000.0),
        Coins(0.0),
        Coins(2_000_000.0),
        Coins(1_500_000.0),
        Coins(0.0),
        &cfg,
    );
    assert_eq!(decision, CandidateDecision::Reject("POSITION_LIMIT"));
}

#[test]
fn reprice_throttle_requires_interval_and_profit_improvement() {
    let cfg = test_config();
    assert_eq!(
        should_reprice(60, None, 0, Coins(100_000.0), Coins(300_000.0), false, &cfg).reason,
        Some("ORDER_TOO_YOUNG")
    );
    assert_eq!(
        should_reprice(300, Some(100), 0, Coins(100_000.0), Coins(300_000.0), false, &cfg).reason,
        Some("REPRICE_COOLDOWN")
    );
    assert_eq!(
        should_reprice(300, Some(400), 0, Coins(100_000.0), Coins(120_000.0), false, &cfg).reason,
        Some("LOW_REPRICE_IMPROVEMENT")
    );
    assert!(should_reprice(300, Some(400), 0, Coins(100_000.0), Coins(200_000.0), false, &cfg).allowed);
}

#[test]
fn sell_reprice_requires_fifo_positive_lower_price() {
    let cfg = test_config();
    assert_eq!(
        should_reprice_sell(60, None, 0, Coins(1_200_000.0), Coins(1_100_000.0), Coins(2_000_000.0), 2, &cfg).reason,
        Some("ORDER_TOO_YOUNG")
    );
    assert_eq!(
        should_reprice_sell(
            300,
            Some(400),
            0,
            Coins(1_200_000.0),
            Coins(1_190_000.0),
            Coins(2_000_000.0),
            2,
            &cfg
        )
        .reason,
        Some("LOW_SELL_PRICE_MOVEMENT")
    );
    assert_eq!(
        should_reprice_sell(
            300,
            Some(400),
            0,
            Coins(1_200_000.0),
            Coins(980_000.0),
            Coins(1_970_000.0),
            2,
            &cfg
        )
        .reason,
        Some("NEGATIVE_EXPECTED_PROFIT")
    );
    assert_eq!(
        should_reprice_sell(
            300,
            Some(400),
            0,
            Coins(1_200_000.0),
            Coins(1_250_000.0),
            Coins(2_000_000.0),
            2,
            &cfg
        )
        .reason,
        Some("SELL_NOT_OVERPRICED")
    );
    assert!(
        should_reprice_sell(
            300,
            Some(400),
            0,
            Coins(1_200_000.0),
            Coins(1_100_000.0),
            Coins(2_000_000.0),
            2,
            &cfg
        )
        .allowed
    );
}
