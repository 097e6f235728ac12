use purse_pilot::bazaar_tracker::planned::PLANNED_LOCAL_SELL_ORDER_TTL_SECONDS;
use purse_pilot::bazaar_tracker::{
    normalize_for_match, BazaarOrderTracker, CostBasisStatus, SellBlockReason,
};
use purse_pilot::number::Number;

/// Coins as `f64`.
#[derive(Debug, Clone, Copy, PartialEq, PartialOrd)]
struct Coins(f64);

impl Number for Coins {
    fn whole(n: u64) -> Self {
        Self::from_u64(n)
    }
    fn signed(n: i64) -> Self {
        Self::from_i64(n)
    }
    fn spec_plus(self, other: Self) -> Self {
        self.plus(other)
    }
    fn spec_minus(self, other: Self) -> Self {
        self.minus(other)
    }
    fn spec_times(self, other: Self) -> Self {
        self.times(other)
    }
    fn spec_over(self, other: Self) -> Self {
        self.over(other)
    }
    fn spec_magnitude(self) -> Self {
        self.magnitude()
    }
    fn spec_root(self) -> Self {
        self.root()
    }
    fn spec_larger(self, other: Self) -> Self {
        self.larger(other)
    }
    fn spec_smaller(self, other: Self) -> Self {
        self.smaller(other)
    }
    fn spec_below(self, other: Self) -> bool {
        self.below(other)
    }
    fn spec_at_most(self, other: Self) -> bool {
        self.at_most(other)
    }
    fn spec_is_finite(self) -> bool {
        self.is_finite()
    }
    fn spec_rounded(self) -> i64 {
        self.rounded()
    }
    fn spec_whole_part(self) -> u64 {
        self.whole_part()
    }
    fn below_is_asymmetric(_a: Self, _b: Self) {}
    fn below_is_cotransitive(_a: Self, _b: Self, _c: Self) {}
    fn whole_over_itself(_n: u64) {}
    fn times_one(_a: Self) {}
    fn from_u64(n: u64) -> Self {
        Coins(n as f64)
    }
    fn from_i64(n: i64) -> Self {
        Coins(n as f64)
    }
    fn plus(self, other: Self) -> Self {
        Coins(self.0 + other.0)
    }
    fn minus(self, other: Self) -> Self {
        Coins(self.0 - other.0)
    }
    fn times(self, other: Self) -> Self {
        Coins(self.0 * other.0)
    }
    fn over(self, other: Self) -> Self {
        Coins(self.0 / other.0)
    }
    fn magnitude(self) -> Self {
        Coins(self.0.abs())
    }
    fn root(self) -> Self {
        Coins(self.0.sqrt())
    }
    fn larger(self, other: Self) -> Self {
        Coins(self.0.max(other.0))
    }
    fn smaller(self, other: Self) -> Self {
        Coins(self.0.min(other.0))
    }
    fn below(self, other: Self) -> bool {
        self.0 < other.0
    }
    fn at_most(self, other: Self) -> bool {
        self.0 <= other.0
    }
    fn is_finite(self) -> bool {
        self.0.is_finite()
    }
    fn rounded(self) -> i64 {
        self.0.round() as i64
    }
    fn whole_part(self) -> u64 {
        self.0.floor() as u64
    }
}

type Tracker = BazaarOrderTracker<Coins>;


#[test]
fn normalize_strips_bazaar_display_prefixes_for_exposure_matching() {
    assert_eq!(
        normalize_for_match("✎ Flawless Sapphire Gemstone"),
        normalize_for_match("Flawless Sapphire Gemstone")
    );
    assert_eq!(
        normalize_for_match("⸕ Flawless Amber Gemstone"),
        normalize_for_match("Flawless Amber Gemstone")
    );
    assert_eq!(
        normalize_for_match("§a✎ Flawless Sapphire Gemstone"),
        "flawless sapphire gemstone"
    );
    assert_eq!(
        normalize_for_match("⸕ Flawless Amber Gem"),
        normalize_for_match("Flawless Amber Gemstone")
    );
}

#[test]
fn partial_bazaar_collect_reduces_order_instead_of_removing_it() {
    let mut tracker = Tracker::new_in_memory();
    tracker.add_order("Carrot Zest".into(), 6, Coins(556_808.9), true);

    let collected = tracker
        .remove_or_reduce_order_on_collect("Carrot Zest", true, Some(2))
        .expect("collected portion should be returned");

    assert_eq!(collected.amount, 2);
    let orders = tracker.get_orders();
    assert_eq!(orders.len(), 1);
    assert_eq!(orders[0].amount, 4);
    assert_eq!(orders[0].status, "open");
    assert!(orders[0].is_buy_order);
}

#[test]
fn reconcile_does_not_restore_partially_collected_buy_amount() {
    let mut tracker = Tracker::new_in_memory();
    tracker.add_order("Enchanted Titanium".into(), 161, Coins(21_723.5), true);
    let collected = tracker
        .remove_or_reduce_order_on_collect("Enchanted Titanium", true, Some(11))
        .expect("partial collect should return collected amount");
    assert_eq!(collected.amount, 11);
    tracker.record_buy_cost("Enchanted Titanium", Coins(21_723.5), 11);

    let ingame = vec![("Enchanted Titanium".to_string(), true, 161, Coins(21_723.5))];
    let removed = tracker.reconcile_with_ingame(&ingame);
    assert_eq!(removed, 0);
    let orders = tracker.get_orders();
    assert_eq!(orders.len(), 1);
    assert_eq!(orders[0].amount, 150);
}

#[test]
fn reconcile_does_not_restore_partially_collected_sell_amount() {
    let mut tracker = Tracker::new_in_memory();
    tracker.record_buy_cost("Flawless Amber Gemstone", Coins(2_850_000.6), 3);
    tracker.add_order("Flawless Amber Gemstone".into(), 3, Coins(3_193_804.4), false);
    let collected = tracker
        .remove_or_reduce_order_on_collect("Flawless Amber Gemstone", false, Some(2))
        .expect("partial sell collect should return collected amount");
    assert_eq!(collected.amount, 2);
    let audit = tracker.account_sell_collect(
        "Flawless Amber Gemstone",
        2,
        Coins(6_307_763.69),
        Some(Coins(6_387_608.8)),
    );
    assert_eq!(audit.cost_basis_status, CostBasisStatus::Known);

    let ingame = vec![(
        "⸕ Flawless Amber Gemstone".to_string(),
        false,
        3,
        Coins(3_193_804.4),
    )];
    let removed = tracker.reconcile_with_ingame(&ingame);
    assert_eq!(removed, 0);
    let orders = tracker.get_orders();
    assert_eq!(orders.len(), 1);
    assert_eq!(orders[0].amount, 1);
    assert!(!orders[0].is_buy_order);
    assert_eq!(
        tracker.remaining_cost_lot_amount_for("Flawless Amber Gemstone"),
        1
    );
}

#[test]
fn cancel_removes_oldest_same_item_order_to_avoid_relist_churn() {
    let mut tracker = Tracker::new_in_memory();
    tracker.add_order("Carrot Zest".into(), 2, Coins(618_010.9), false);
    tracker.add_order("Carrot Zest".into(), 2, Coins(618_010.4), false);

    let cancelled = tracker
        .remove_oldest_order("Carrot Zest", false)
        .expect("oldest sell should be removed");

    assert_eq!(cancelled.price_per_unit, Coins(618_010.9));
    let orders = tracker.get_orders();
    assert_eq!(orders.len(), 1);
    assert_eq!(orders[0].price_per_unit, Coins(618_010.4));
    assert!(!orders[0].is_buy_order);
}

#[test]
fn active_sell_count_and_duplicate_target_group_same_item_orders() {
    let mut tracker = Tracker::new_in_memory();
    tracker.add_order("Enchanted Lily Pad".into(), 64, Coins(31_168.6), false);
    tracker.add_order("Enchanted Lily Pad".into(), 116, Coins(31_299.8), false);
    tracker.add_order("Kismet Feather".into(), 2, Coins(1_512_000.0), true);

    assert_eq!(tracker.active_sell_order_count_for("enchanted lily pad"), 2);
    assert_eq!(tracker.active_sell_amount_for("Enchanted Lily Pad"), 180);

    let duplicate = tracker
        .duplicate_active_sell_order_target()
        .expect("duplicate sell item should be detected");
    assert_eq!(normalize_for_match(&duplicate.0), "enchanted lily pad");
    assert_eq!(duplicate.1, 2);
    assert_eq!(duplicate.2, 180);
}

#[test]
fn crystalized_moonlight_fifo_profit_is_positive() {
    let mut tracker = Tracker::new_in_memory();
    tracker.record_buy_cost("Crystalized Moonlight", Coins(460_003.1), 10);

    let audit = tracker.account_sell_collect(
        "Crystalized Moonlight",
        10,
        Coins(5_065_283.0),
        Some(Coins(5_129_400.0)),
    );

    assert_eq!(audit.cost_basis_status, CostBasisStatus::Known);
    assert_eq!(audit.cost_basis_total.0.round() as i64, 4_600_031);
    assert_eq!(audit.realized_profit, 465_252);
    assert_eq!(
        tracker
            .profit_audit_snapshot()
            .current_fifo_realized_profit_total,
        465_252
    );
}

#[test]
fn mixed_known_and_unknown_sell_realizes_only_known_fifo_profit() {
    let mut tracker = Tracker::new_in_memory();
    tracker.record_buy_cost("Crystalized Moonlight", Coins(460_003.1), 10);

    let audit = tracker.account_sell_collect(
        "Crystalized Moonlight",
        17,
        Coins(8_610_000.0),
        Some(Coins(8_720_000.0)),
    );

    assert_eq!(
        audit.cost_basis_status,
        CostBasisStatus::PartialKnownCostBasis
    );
    assert_eq!(audit.sold_amount, 10);
    assert_eq!(audit.cost_basis_total.0.round() as i64, 4_600_031);
    assert_eq!(audit.realized_profit, 464_675);
    let snapshot = tracker.profit_audit_snapshot();
    assert_eq!(snapshot.current_fifo_realized_profit_total, 464_675);
    assert_eq!(snapshot.unknown_cost_basis_sell_total_count, 1);
    assert!(!snapshot
        .remaining_cost_lots
        .contains_key("crystalized moonlight"));
    assert_eq!(
        audit.reason.as_deref(),
        Some("partial_known_cost_basis: sold 17, known 10, unknown 7")
    );
}

#[test]
fn busted_belt_buckle_mixed_sell_consumes_known_remainder_without_counting_unknown() {
    let mut tracker = Tracker::new_in_memory();
    tracker.record_buy_cost("Busted Belt Buckle", Coins(266_805.5), 5);

    let audit = tracker.account_sell_collect(
        "Busted Belt Buckle",
        14,
        Coins(4_147_410.1375),
        Some(Coins(4_199_909.0)),
    );

    assert_eq!(
        audit.cost_basis_status,
        CostBasisStatus::PartialKnownCostBasis
    );
    assert_eq!(audit.sold_amount, 5);
    assert_eq!(audit.cost_basis_total, Coins(1_334_027.5));
    assert_eq!(audit.realized_profit, 147_190);
    assert_eq!(
        audit.reason.as_deref(),
        Some("partial_known_cost_basis: sold 14, known 5, unknown 9")
    );
    let snapshot = tracker.profit_audit_snapshot();
    assert_eq!(snapshot.current_fifo_realized_profit_total, 147_190);
    assert_eq!(snapshot.unknown_cost_basis_sell_total_count, 1);
    assert!(!snapshot
        .remaining_cost_lots
        .contains_key("busted belt buckle"));
}

#[test]
fn sell_without_known_claim_value_does_not_consume_fifo_or_count_profit() {
    let mut tracker = Tracker::new_in_memory();
    tracker.record_buy_cost("Melon Juice", Coins(162_566.1), 21);

    let audit = tracker.account_sell_collect("Melon Juice", 21, Coins(0.0), None);

    assert_eq!(audit.cost_basis_status, CostBasisStatus::UnknownCostBasis);
    assert_eq!(audit.realized_profit, 0);
    assert_eq!(
        audit.reason.as_deref(),
        Some("missing_known_sell_claim_value")
    );
    let snapshot = tracker.profit_audit_snapshot();
    assert_eq!(snapshot.current_fifo_realized_profit_total, 0);
    assert_eq!(snapshot.unknown_cost_basis_sell_total_count, 1);
    assert_eq!(snapshot.remaining_cost_lots.get("melon juice").unwrap()[0].amount, 21);
}

#[test]
fn sell_collect_clears_stale_planned_sell_guard_even_when_unknown() {
    let mut tracker = Tracker::new_in_memory();
    tracker.record_planned_local_sell_amount("Busted Belt Buckle", Coins(299_993.5), None, 13);

    let audit = tracker.account_sell_collect("Busted Belt Buckle", 14, Coins(0.0), None);

    assert_eq!(audit.cost_basis_status, CostBasisStatus::UnknownCostBasis);
    assert!(tracker
        .planned_local_sell_amount("Busted Belt Buckle")
        .is_none());
}

#[test]
fn stale_planned_sell_order_escrow_expires_but_buy_target_price_survives() {
    let mut tracker = Tracker::new_in_memory();
    let stale_at =
        Tracker::now_secs().saturating_sub(PLANNED_LOCAL_SELL_ORDER_TTL_SECONDS + 1);
    tracker.record_planned_local_sell_amount_at(
        "Busted Belt Buckle",
        Coins(299_993.5),
        None,
        5,
        stale_at,
    );
    tracker.record_planned_local_sell_at(
        "Flawless Amber Gemstone",
        Coins(3_193_811.6),
        Some("PERFECT_AMBER_GEM".to_string()),
        stale_at,
    );

    assert!(tracker
        .planned_local_sell_amount("Busted Belt Buckle")
        .is_none());
    let planned_target = tracker
        .planned_local_sell("Flawless Amber Gemstone")
        .expect("buy target price should not expire");
    assert_eq!(planned_target.0, Coins(3_193_811.6));
    assert!(planned_target.2.is_none());
}

#[test]
fn legacy_bz_list_profit_is_diagnostic_only() {
    let mut tracker = Tracker::new_in_memory();
    let mut legacy = Vec::new();
    legacy.push(("Crystalized Moonlight".to_string(), (-5_830_000, 1)));
    tracker.set_bz_list_profits(legacy);
    tracker.record_ignored_legacy_profit(-5_830_000, "/cofl bz l");

    let audit = tracker.account_sell_collect(
        "Crystalized Moonlight",
        17,
        Coins(8_610_000.0),
        Some(Coins(8_720_000.0)),
    );

    let snapshot = tracker.profit_audit_snapshot();
    assert_eq!(audit.cost_basis_status, CostBasisStatus::UnknownCostBasis);
    assert_eq!(snapshot.current_fifo_realized_profit_total, 0);
    assert_eq!(snapshot.ignored_legacy_profit_total, -5_830_000);
}

#[test]
fn partial_fill_leaves_remaining_fifo_lot() {
    let mut tracker = Tracker::new_in_memory();
    tracker.record_buy_cost("Coal", Coins(100.0), 10);

    let audit = tracker.account_sell_collect("Coal", 4, Coins(500.0), Some(Coins(500.0)));

    assert_eq!(audit.cost_basis_status, CostBasisStatus::Known);
    assert_eq!(audit.cost_basis_total, Coins(400.0));
    let snapshot = tracker.profit_audit_snapshot();
    assert_eq!(snapshot.remaining_cost_lots.get("coal").unwrap()[0].amount, 6);
    assert_eq!(
        snapshot.remaining_cost_lots.get("coal").unwrap()[0].price_per_unit,
        Coins(100.0)
    );
}

#[test]
fn multiple_lots_are_consumed_fifo() {
    let mut tracker = Tracker::new_in_memory();
    tracker.record_buy_cost("Diamond", Coins(100.0), 5);
    tracker.record_buy_cost("Diamond", Coins(120.0), 5);

    let audit = tracker.account_sell_collect("Diamond", 8, Coins(1_000.0), Some(Coins(1_000.0)));

    assert_eq!(audit.cost_basis_status, CostBasisStatus::Known);
    assert_eq!(audit.cost_basis_total, Coins(860.0));
    assert_eq!(audit.lots_used[0].amount, 5);
    assert_eq!(audit.lots_used[0].price_per_unit, Coins(100.0));
    assert_eq!(audit.lots_used[1].amount, 3);
    assert_eq!(audit.lots_used[1].price_per_unit, Coins(120.0));
    let snapshot = tracker.profit_audit_snapshot();
    assert_eq!(snapshot.remaining_cost_lots.get("diamond").unwrap()[0].amount, 2);
    assert_eq!(
        snapshot.remaining_cost_lots.get("diamond").unwrap()[0].price_per_unit,
        Coins(120.0)
    );
}

#[test]
fn audit_snapshot_documents_graph_source() {
    let mut tracker = Tracker::new_in_memory();
    let snapshot = tracker.profit_audit_snapshot();
    assert_eq!(
        snapshot.web_graph_source,
        "local_fifo_known_cost_basis_only"
    );
    assert_eq!(snapshot.current_fifo_realized_profit_total, 0);
}

#[test]
fn add_and_remove_order() {
    let mut tracker = Tracker::new_in_memory();
    tracker.add_order("Enchanted Coal Block".into(), 4, Coins(30100.0), false);
    assert_eq!(tracker.get_orders().len(), 1);

    let removed = tracker.remove_order("Enchanted Coal Block", false);
    assert!(removed.is_some());
    assert_eq!(removed.unwrap().amount, 4);
    assert_eq!(tracker.get_orders().len(), 0);
}

#[test]
fn mark_filled() {
    let mut tracker = Tracker::new_in_memory();
    tracker.add_order("Diamond".into(), 64, Coins(100.0), true);
    assert!(!tracker.has_filled_orders());
    tracker.mark_filled("Diamond", true);
    assert_eq!(tracker.get_orders()[0].status, "filled");
    assert!(tracker.has_filled_orders());
}

#[test]
fn has_filled_orders_empty() {
    let mut tracker = Tracker::new_in_memory();
    assert!(!tracker.has_filled_orders());
}

#[test]
fn has_filled_orders_cleared_on_remove() {
    let mut tracker = Tracker::new_in_memory();
    tracker.add_order("Coal".into(), 10, Coins(500.0), true);
    tracker.mark_filled("Coal", true);
    assert!(tracker.has_filled_orders());
    tracker.remove_order("Coal", true);
    assert!(!tracker.has_filled_orders());
}

#[test]
fn remove_filled_order() {
    let mut tracker = Tracker::new_in_memory();
    tracker.add_order("Diamond".into(), 64, Coins(100.0), true);
    tracker.mark_filled("Diamond", true);
    let removed = tracker.remove_order("Diamond", true);
    assert!(removed.is_some());
    assert_eq!(tracker.get_orders().len(), 0);
}

#[test]
fn case_insensitive_match() {
    let mut tracker = Tracker::new_in_memory();
    tracker.add_order("Enchanted Coal Block".into(), 4, Coins(30100.0), false);
    let removed = tracker.remove_order("enchanted coal block", false);
    assert!(removed.is_some());
    assert_eq!(tracker.get_orders().len(), 0);
}

#[test]
fn remove_returns_none_for_missing() {
    let mut tracker = Tracker::new_in_memory();
    assert!(tracker.remove_order("Nonexistent", true).is_none());
}

#[test]
fn remove_stale_orders() {
    let mut tracker = Tracker::new_in_memory();
    // An order with a very old timestamp
    tracker.add_order_at("Old Item".into(), 10, Coins(100.0), true, 1000);
    // Also add a fresh order normally
    tracker.add_order("Fresh Item".into(), 5, Coins(200.0), false);

    let removed = tracker.remove_stale_orders(3600); // 1 hour max age
    assert_eq!(removed, 1);
    let remaining = tracker.get_orders();
    assert_eq!(remaining.len(), 1);
    assert_eq!(remaining[0].item_name, "Fresh Item");
}

#[test]
fn profit_calculation_from_removed_orders() {
    let mut tracker = Tracker::new_in_memory();
    tracker.add_order("Coal".into(), 10, Coins(500.0), true);
    tracker.add_order("Coal".into(), 10, Coins(600.0), false);

    let buy = tracker.remove_order("Coal", true).unwrap();
    let sell = tracker.remove_order("Coal", false).unwrap();
    let profit =
        (sell.price_per_unit.0 * sell.amount as f64) - (buy.price_per_unit.0 * buy.amount as f64);
    assert_eq!(profit, 1000.0);
}

#[test]
fn record_and_take_buy_cost() {
    let mut tracker = Tracker::new_in_memory();
    tracker.record_buy_cost("Enchanted Coal Block", Coins(500.0), 10);

    let cost = tracker.take_buy_cost("Enchanted Coal Block");
    assert!(cost.is_some());
    let (ppu, amt) = cost.unwrap();
    assert_eq!(ppu, Coins(500.0));
    assert_eq!(amt, 10);

    // Second take returns None (consumed).
    assert!(tracker.take_buy_cost("Enchanted Coal Block").is_none());
}

#[test]
fn take_buy_cost_case_insensitive() {
    let mut tracker = Tracker::new_in_memory();
    tracker.record_buy_cost("Enchanted Coal Block", Coins(500.0), 10);
    assert!(tracker.take_buy_cost("enchanted coal block").is_some());
}

#[test]
fn take_buy_cost_returns_none_when_missing() {
    let mut tracker = Tracker::new_in_memory();
    assert!(tracker.take_buy_cost("Nonexistent").is_none());
}

#[test]
fn sell_profit_from_recorded_buy_cost() {
    let mut tracker = Tracker::new_in_memory();
    // Simulate buy order collected: 10x Coal @ 500 coins/unit
    tracker.record_buy_cost("Coal", Coins(500.0), 10);
    // Simulate sell offer collected: 10x Coal @ 600 coins/unit
    let sell_ppu = 600.0;
    let sell_amount = 10u64;
    let (buy_ppu, buy_amount) = tracker.take_buy_cost("Coal").unwrap();
    let profit = (sell_ppu * sell_amount as f64) - (buy_ppu.0 * buy_amount as f64);
    assert_eq!(profit, 1000.0);
}

#[test]
fn multiple_buy_orders_accumulate_cost() {
    let mut tracker = Tracker::new_in_memory();
    // Two buy orders for the same item collected before the sell
    tracker.record_buy_cost("Coal", Coins(500.0), 10);
    tracker.record_buy_cost("Coal", Coins(500.0), 10);
    // Sell 20x Coal @ 600 coins/unit
    let (buy_ppu, buy_amount) = tracker.take_buy_cost("Coal").unwrap();
    assert_eq!(buy_amount, 20);
    assert!((buy_ppu.0 - 500.0).abs() < 0.01);
    let sell_total = 600.0 * 20.0;
    let buy_total = buy_ppu.0 * buy_amount as f64;
    let profit = sell_total - buy_total;
    // Expected: (600*20) - (500*20) = 12000 - 10000 = 2000
    assert_eq!(profit, 2000.0);
}

#[test]
fn multiple_buy_orders_weighted_average() {
    let mut tracker = Tracker::new_in_memory();
    // Buy 10 @ 500/unit, then 10 @ 510/unit
    tracker.record_buy_cost("Diamond", Coins(500.0), 10);
    tracker.record_buy_cost("Diamond", Coins(510.0), 10);
    let (buy_ppu, buy_amount) = tracker.take_buy_cost("Diamond").unwrap();
    assert_eq!(buy_amount, 20);
    // Weighted avg = (500*10 + 510*10) / 20 = 10100 / 20 = 505
    assert!((buy_ppu.0 - 505.0).abs() < 0.01);
}

#[test]
fn reconcile_removes_stale_orders() {
    let mut tracker = Tracker::new_in_memory();
    tracker.add_order("Coal".into(), 10, Coins(500.0), true);
    tracker.add_order("Diamond".into(), 5, Coins(1000.0), false);
    tracker.add_order("Iron Ingot".into(), 64, Coins(50.0), true);
    assert_eq!(tracker.get_orders().len(), 3);

    // In-game only has Coal BUY and Diamond SELL — Iron Ingot is stale
    let ingame = vec![
        ("Coal".to_string(), true, 10, Coins(500.0)),
        ("Diamond".to_string(), false, 5, Coins(1000.0)),
    ];
    let removed = tracker.reconcile_with_ingame(&ingame);
    assert_eq!(removed, 1);
    let remaining = tracker.get_orders();
    assert_eq!(remaining.len(), 2);
    assert!(remaining
        .iter()
        .any(|o| o.item_name == "Coal" && o.is_buy_order));
    assert!(remaining
        .iter()
        .any(|o| o.item_name == "Diamond" && !o.is_buy_order));
}

#[test]
fn reconcile_case_insensitive() {
    let mut tracker = Tracker::new_in_memory();
    tracker.add_order("Enchanted Coal Block".into(), 4, Coins(30100.0), false);
    let ingame = vec![("enchanted coal block".to_string(), false, 4, Coins(30100.0))];
    let removed = tracker.reconcile_with_ingame(&ingame);
    assert_eq!(removed, 0);
    assert_eq!(tracker.get_orders().len(), 1);
}

#[test]
fn reconcile_price_change_refreshes_order_age() {
    let mut tracker = Tracker::new_in_memory();
    tracker.add_order_at(
        "Flawless Sapphire Gemstone".into(),
        1,
        Coins(3_027_535.9),
        false,
        100,
    );

    let ingame = vec![(
        "✎ Flawless Sapphire Gemstone".to_string(),
        false,
        1,
        Coins(3_027_533.9),
    )];
    let removed = tracker.reconcile_with_ingame(&ingame);
    assert_eq!(removed, 0);
    let orders = tracker.get_orders();
    assert_eq!(orders.len(), 1);
    assert_eq!(orders[0].price_per_unit, Coins(3_027_533.9));
    assert!(orders[0].placed_at > 100);
}

#[test]
fn reconcile_duplicate_same_item_orders() {
    let mut tracker = Tracker::new_in_memory();
    // Tracker has 3 "Coal" buy orders
    tracker.add_order("Coal".into(), 10, Coins(500.0), true);
    tracker.add_order("Coal".into(), 20, Coins(510.0), true);
    tracker.add_order("Coal".into(), 30, Coins(520.0), true);
    assert_eq!(tracker.get_orders().len(), 3);

    // In-game only has 1 "Coal" buy order (2 were cancelled externally)
    let ingame = vec![("Coal".to_string(), true, 10, Coins(500.0))];
    let removed = tracker.reconcile_with_ingame(&ingame);
    assert_eq!(removed, 2);
    assert_eq!(tracker.get_orders().len(), 1);
}

#[test]
fn reconcile_keeps_correct_count_of_duplicates() {
    let mut tracker = Tracker::new_in_memory();
    // Tracker has 2 "Coal" buy orders and 1 "Diamond" sell order
    tracker.add_order("Coal".into(), 10, Coins(500.0), true);
    tracker.add_order("Coal".into(), 20, Coins(510.0), true);
    tracker.add_order("Diamond".into(), 5, Coins(1000.0), false);
    assert_eq!(tracker.get_orders().len(), 3);

    // In-game has 2 "Coal" buy orders and 1 "Diamond" sell order
    let ingame = vec![
        ("Coal".to_string(), true, 10, Coins(500.0)),
        ("Coal".to_string(), true, 20, Coins(510.0)),
        ("Diamond".to_string(), false, 5, Coins(1000.0)),
    ];
    let removed = tracker.reconcile_with_ingame(&ingame);
    assert_eq!(removed, 0);
    assert_eq!(tracker.get_orders().len(), 3);
}

#[test]
fn reconcile_adds_new_orders_with_correct_data() {
    let mut tracker = Tracker::new_in_memory();
    // Empty tracker, in-game has 2 orders
    let ingame = vec![
        ("Coal".to_string(), true, 64, Coins(500.0)),
        ("Diamond".to_string(), false, 10, Coins(1200.5)),
    ];
    let removed = tracker.reconcile_with_ingame(&ingame);
    assert_eq!(removed, 0);
    let orders = tracker.get_orders();
    assert_eq!(orders.len(), 2);

    let coal = orders.iter().find(|o| o.item_name == "Coal").unwrap();
    assert_eq!(coal.amount, 64);
    assert!((coal.price_per_unit.0 - 500.0).abs() < 0.01);
    assert!(coal.is_buy_order);

    let diamond = orders.iter().find(|o| o.item_name == "Diamond").unwrap();
    assert_eq!(diamond.amount, 10);
    assert!((diamond.price_per_unit.0 - 1200.5).abs() < 0.01);
    assert!(!diamond.is_buy_order);
}

#[test]
fn reconcile_preserves_fifo_backed_sell_missing_from_snapshot() {
    let mut tracker = Tracker::new_in_memory();
    tracker.record_buy_cost("Melon Juice", Coins(162_566.1), 21);
    tracker.add_order("Melon Juice".into(), 21, Coins(189_835.3), false);

    let removed = tracker.reconcile_with_ingame(&[]);

    assert_eq!(removed, 0);
    let snapshot = tracker.profit_audit_snapshot();
    assert_eq!(snapshot.active_sell_orders, 1);
    assert!(snapshot.items_waiting_for_sell.is_empty());
    assert_eq!(snapshot.remaining_cost_lots.get("melon juice").unwrap()[0].amount, 21);
}

#[test]
fn reconcile_removes_unbacked_sell_missing_from_snapshot() {
    let mut tracker = Tracker::new_in_memory();
    tracker.add_order("Crystalized Moonlight".into(), 6, Coins(720_000.0), false);

    let removed = tracker.reconcile_with_ingame(&[]);

    assert_eq!(removed, 1);
    assert!(tracker.get_orders().is_empty());
}

#[test]
fn product_lookup_failure_clears_planned_sell_and_cooldowns_item() {
    let mut tracker = Tracker::new_in_memory();
    tracker.record_planned_local_sell(
        "Enchanted Water Lily",
        Coins(32_599.9),
        Some("ENCHANTED_WATER_LILY".to_string()),
    );

    tracker.record_product_lookup_failed("Enchanted Water Lily", "PRODUCT_LOOKUP_FAILED");

    assert!(tracker.planned_local_sell("Enchanted Water Lily").is_none());
    let snapshot = tracker.profit_audit_snapshot();
    let perf = snapshot.item_performance.get("enchanted water lily").unwrap();
    assert_eq!(perf.failed_search_count, 1);
    assert_eq!(perf.failed_flips, 1);
    assert_eq!(perf.block_reason.as_deref(), Some("PRODUCT_LOOKUP_FAILED"));
    assert!(tracker
        .item_cooldown_reason("Enchanted Water Lily")
        .is_some());
}

#[test]
fn successful_fifo_sell_clears_previous_item_cooldown() {
    let mut tracker = Tracker::new_in_memory();
    tracker.record_product_lookup_failed("Kismet Feather", "PRODUCT_LOOKUP_FAILED");
    assert!(tracker.item_cooldown_reason("Kismet Feather").is_some());

    tracker.record_buy_cost("Kismet Feather", Coins(1_450_672.7), 2);
    let audit =
        tracker.account_sell_collect("Kismet Feather", 2, Coins(3_119_218.0), Some(Coins(3_154_708.0)));

    assert_eq!(audit.cost_basis_status, CostBasisStatus::Known);
    assert!(audit.realized_profit > 0);
    assert!(tracker.item_cooldown_reason("Kismet Feather").is_none());
    let snapshot = tracker.profit_audit_snapshot();
    let perf = snapshot.item_performance.get("kismet feather").unwrap();
    assert_eq!(perf.block_reason, None);
    assert_eq!(perf.cooldown_until, None);
    assert_eq!(perf.successful_flips, 1);
}

#[test]
fn partial_fifo_sell_keeps_cooldown_while_exposure_remains() {
    let mut tracker = Tracker::new_in_memory();
    tracker.record_buy_cost("Flawless Amber Gemstone", Coins(2_850_000.6), 3);
    tracker.add_order("Flawless Amber Gemstone".into(), 3, Coins(3_193_804.4), false);
    tracker.cooldown_item("Flawless Amber Gemstone", "CAPITAL_BLOCKER", 1_800);
    assert!(tracker
        .item_cooldown_reason("Flawless Amber Gemstone")
        .is_some());

    tracker.remove_or_reduce_order_on_collect("Flawless Amber Gemstone", false, Some(2));
    let audit = tracker.account_sell_collect(
        "Flawless Amber Gemstone",
        2,
        Coins(6_307_763.69),
        Some(Coins(6_387_608.8)),
    );

    assert_eq!(audit.cost_basis_status, CostBasisStatus::Known);
    assert!(audit.realized_profit > 0);
    let (_, reason) = tracker
        .item_cooldown_reason("Flawless Amber Gemstone")
        .expect("cooldown should remain while one listed sell is still open");
    assert_eq!(reason, "CAPITAL_BLOCKER");
}

#[test]
fn manual_item_cooldown_sets_reason_and_blocks_candidate() {
    let mut tracker = Tracker::new_in_memory();

    tracker.cooldown_item("Flawless Amber Gemstone", "capital_blocker", 1_800);

    let Some((until, reason)) = tracker.item_cooldown_reason("Flawless Amber Gemstone") else {
        panic!("cooldown should be active");
    };
    assert_eq!(reason, "CAPITAL_BLOCKER");
    assert!(until > Tracker::now_secs());
}

#[test]
fn bz_list_profit_single_flip() {
    let mut tracker = Tracker::new_in_memory();
    let mut items = Vec::new();
    items.push(("Worm Membrane".to_string(), (100_000i64, 1u32)));
    tracker.set_bz_list_profits(items);
    assert_eq!(tracker.get_bz_list_profit("Worm Membrane"), Some(100_000));
}

#[test]
fn bz_list_profit_multiple_flips_returns_total() {
    let mut tracker = Tracker::new_in_memory();
    let mut items = Vec::new();
    items.push(("Worm Membrane".to_string(), (741_000i64, 7u32)));
    tracker.set_bz_list_profits(items);
    // Returns total profit, not per-flip average
    assert_eq!(tracker.get_bz_list_profit("Worm Membrane"), Some(741_000));
}

#[test]
fn bz_list_profit_case_insensitive() {
    let mut tracker = Tracker::new_in_memory();
    let mut items = Vec::new();
    items.push(("Enchanted Coal Block".to_string(), (50_000i64, 2u32)));
    tracker.set_bz_list_profits(items);
    assert_eq!(
        tracker.get_bz_list_profit("enchanted coal block"),
        Some(50_000)
    );
}

#[test]
fn bz_list_profit_missing_item() {
    let mut tracker = Tracker::new_in_memory();
    assert!(tracker.get_bz_list_profit("Nonexistent").is_none());
}

#[test]
fn bz_list_profit_zero_count_still_returns_total() {
    let mut tracker = Tracker::new_in_memory();
    let mut items = Vec::new();
    items.push(("Coal".to_string(), (50_000i64, 0u32)));
    tracker.set_bz_list_profits(items);
    assert_eq!(tracker.get_bz_list_profit("Coal"), Some(50_000));
}

#[test]
fn bz_list_profits_replaced_on_new_set() {
    let mut tracker = Tracker::new_in_memory();
    let mut items1 = Vec::new();
    items1.push(("Coal".to_string(), (10_000i64, 1u32)));
    tracker.set_bz_list_profits(items1);
    assert!(tracker.get_bz_list_profit("Coal").is_some());

    // Second set replaces all data
    let mut items2 = Vec::new();
    items2.push(("Diamond".to_string(), (20_000i64, 2u32)));
    tracker.set_bz_list_profits(items2);
    assert!(tracker.get_bz_list_profit("Coal").is_none());
    assert_eq!(tracker.get_bz_list_profit("Diamond"), Some(20_000));
}
#[test]
fn fifo_frogcoin_profit_matches_real_claim() {
    let mut tracker = Tracker::new_in_memory();
    tracker.record_buy_cost("Frogcoin", Coins(367_843.9), 2);

    let audit = tracker.account_sell_collect("Frogcoin", 2, Coins(955_952.3375), Some(Coins(967_040.8481)));

    assert_eq!(audit.cost_basis_status, CostBasisStatus::Known);
    assert_eq!(audit.cost_basis_total, Coins(735_687.8));
    assert_eq!(audit.realized_profit, 220_265);
}

#[test]
fn negative_designer_coffee_beans_sell_is_blocked_without_consuming_fifo() {
    let mut tracker = Tracker::new_in_memory();
    tracker.record_buy_cost("Designer Coffee Beans", Coins(254_005.2), 2);

    let check =
        tracker.validate_sell_before_order("Designer Coffee Beans", 2, Coins(229_996.900), Coins(1.25));

    assert!(!check.allowed);
    assert_eq!(check.reason, Some(SellBlockReason::NegativeExpectedProfit));
    assert!((check.fifo_cost_basis_total.0 - 508_010.4).abs() < 0.01);
    assert!((check.expected_sell_after_tax.0 - 454_243.8775).abs() < 0.01);
    let snapshot = tracker.profit_audit_snapshot();
    assert_eq!(snapshot.current_fifo_realized_profit_total, 0);
    assert_eq!(
        snapshot.remaining_cost_lots.get("designer coffee beans").unwrap()[0].amount,
        2
    );
    assert_eq!(
        snapshot.item_performance.get("designer coffee beans").unwrap().negative_profit_block_count,
        1
    );
}

#[test]
fn negative_sell_cost_lot_is_blocked_not_actionable_backlog() {
    let mut tracker = Tracker::new_in_memory();
    tracker.record_buy_cost("Summoning Eye", Coins(1_578_979.1), 1);

    let check = tracker.validate_sell_before_order("Summoning Eye", 1, Coins(1_400_000.0), Coins(1.25));
    assert!(!check.allowed);
    assert_eq!(check.reason, Some(SellBlockReason::NegativeExpectedProfit));

    let snapshot = tracker.profit_audit_snapshot();
    assert!(snapshot.items_waiting_for_sell.is_empty());
    assert_eq!(
        snapshot.blocked_items_waiting_for_sell,
        vec!["summoning eye".to_string()]
    );
    assert_eq!(snapshot.actionable_cost_lot_value, Coins(0.0));
    assert!(snapshot.blocked_cost_lot_value > Coins(0.0));
    assert_eq!(snapshot.remaining_cost_lots.get("summoning eye").unwrap()[0].amount, 1);
}

#[test]
fn api_snapshot_open_sell_value_is_nonzero_for_active_sell_order() {
    let mut tracker = Tracker::new_in_memory();
    tracker.add_order("Frogcoin".into(), 2, Coins(500_000.0), false);

    let snapshot = tracker.profit_audit_snapshot();

    assert_eq!(snapshot.active_sell_orders, 1);
    assert!(snapshot.open_sell_value > Coins(0.0));
}

#[test]
fn legacy_ignored_total_never_changes_fifo_bz_total() {
    let mut tracker = Tracker::new_in_memory();
    tracker.record_ignored_legacy_profit(18_984_775, "/cofl bz l");

    let snapshot = tracker.profit_audit_snapshot();

    assert_eq!(snapshot.ignored_legacy_profit_total, 18_984_775);
    assert_eq!(snapshot.current_fifo_realized_profit_total, 0);
    assert_eq!(
        snapshot.web_graph_source,
        "local_fifo_known_cost_basis_only"
    );
}
