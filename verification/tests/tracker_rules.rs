use purse_pilot::bazaar_tracker::{
    BazaarOrderTracker, BazaarProfitAuditSnapshot, BuyCostLot, CostBasisStatus, ItemPerformance,
    SellBlockReason, TrackedBazaarOrder,
};
use purse_pilot::number::Number;

/// Coins as `f64`.
#[derive(Debug, Clone, Copy, PartialEq, PartialOrd)]
struct Coins(f64);

impl Number for Coins {
    fn whole(n: u64) -> Self {
        Self::from_u64(n)
    }
    fn signed(n: i64) -> Self {
        Self::from_i64(n)
    }
    fn spec_plus(self, other: Self) -> Self {
        self.plus(other)
    }
    fn spec_minus(self, other: Self) -> Self {
        self.minus(other)
    }
    fn spec_times(self, other: Self) -> Self {
        self.times(other)
    }
    fn spec_over(self, other: Self) -> Self {
        self.over(other)
    }
    fn spec_magnitude(self) -> Self {
        self.magnitude()
    }
    fn spec_root(self) -> Self {
        self.root()
    }
    fn spec_larger(self, other: Self) -> Self {
        self.larger(other)
    }
    fn spec_smaller(self, other: Self) -> Self {
        self.smaller(other)
    }
    fn spec_below(self, other: Self) -> bool {
        self.below(other)
    }
    fn spec_at_most(self, other: Self) -> bool {
        self.at_most(other)
    }
    fn spec_is_finite(self) -> bool {
        self.is_finite()
    }
    fn spec_rounded(self) -> i64 {
        self.rounded()
    }
    fn spec_whole_part(self) -> u64 {
        self.whole_part()
    }
    fn below_is_asymmetric(_a: Self, _b: Self) {}
    fn below_is_cotransitive(_a: Self, _b: Self, _c: Self) {}
    fn whole_over_itself(_n: u64) {}
    fn times_one(_a: Self) {}
    fn from_u64(n: u64) -> Self {
        Coins(n as f64)
    }
    fn from_i64(n: i64) -> Self {
        Coins(n as f64)
    }
    fn plus(self, other: Self) -> Self {
        Coins(self.0 + other.0)
    }
    fn minus(self, other: Self) -> Self {
        Coins(self.0 - other.0)
    }
    fn times(self, other: Self) -> Self {
        Coins(self.0 * other.0)
    }
    fn over(self, other: Self) -> Self {
        Coins(self.0 / other.0)
    }
    fn magnitude(self) -> Self {
        Coins(self.0.abs())
    }
    fn root(self) -> Self {
        Coins(self.0.sqrt())
    }
    fn larger(self, other: Self) -> Self {
        Coins(self.0.max(other.0))
    }
    fn smaller(self, other: Self) -> Self {
        Coins(self.0.min(other.0))
    }
    fn below(self, other: Self) -> bool {
        self.0 < other.0
    }
    fn at_most(self, other: Self) -> bool {
        self.0 <= other.0
    }
    fn is_finite(self) -> bool {
        self.0.is_finite()
    }
    fn rounded(self) -> i64 {
        self.0.round() as i64
    }
    fn whole_part(self) -> u64 {
        self.0.floor() as u64
    }
}

type Tracker = BazaarOrderTracker<Coins>;

const NOW: u64 = 1_000_000;

fn placed(tracker: &mut Tracker, name: &str, amount: u64, price: f64, buy: bool, at: u64) {
    tracker.add_order_at(name.to_string(), amount, Coins(price), buy, at);
}

#[test]
fn sell_checks_name_each_reason() {
    let mut tracker = Tracker::new_in_memory();
    tracker.record_buy_cost_at("Coal", Coins(100.0), 10, NOW);
    let empty = tracker.validate_sell_before_order_at("Coal", 0, Coins(200.0), Coins(1.25), NOW);
    assert_eq!(empty.reason, Some(SellBlockReason::InvalidSell));
    assert_eq!(SellBlockReason::InvalidSell.as_str(), "INVALID_SELL");
    let free = tracker.validate_sell_before_order_at("Coal", 5, Coins(0.0), Coins(1.25), NOW);
    assert_eq!(free.reason, Some(SellBlockReason::InvalidSell));
    let more = tracker.validate_sell_before_order_at("Coal", 11, Coins(200.0), Coins(1.25), NOW);
    assert_eq!(more.reason, Some(SellBlockReason::UnknownCostBasis));
    assert_eq!(more.fifo_cost_basis_total, Coins(0.0));
    let even = tracker.validate_sell_before_order_at("Coal", 10, Coins(100.0), Coins(0.0), NOW);
    assert_eq!(even.reason, Some(SellBlockReason::NegativeExpectedProfit));
    let good = tracker.validate_sell_before_order_at("coal", 10, Coins(110.0), Coins(1.25), NOW);
    assert!(good.allowed && good.reason.is_none());
    assert_eq!(good.fifo_cost_basis_total, Coins(1000.0));
    assert_eq!(good.expected_sell_after_tax, Coins(110.0 * 10.0 * 0.9875));
    // A negative tax counts as none.
    let untaxed = tracker.validate_sell_before_order_at("Coal", 1, Coins(101.0), Coins(-9.0), NOW);
    assert_eq!(untaxed.expected_sell_after_tax, Coins(101.0));
    let perf = tracker.profit_audit_snapshot_at(NOW);
    let coal = perf.item_performance.get("coal").unwrap();
    assert_eq!(coal.unknown_cost_basis_count, 1);
    assert_eq!(coal.negative_profit_block_count, 1);
    assert_eq!(coal.cooldown_until, Some(NOW + 900));
    assert_eq!(coal.block_reason.as_deref(), Some("NEGATIVE_EXPECTED_PROFIT"));
    assert_eq!(tracker.remaining_cost_lot_amount_for("Coal"), 10);
}

#[test]
fn unaccountable_sells_tell_why() {
    let mut tracker = Tracker::new_in_memory();
    let none = tracker.account_sell_collect_at("Coal", 0, Coins(1.0), Some(Coins(1.0)), NOW);
    assert_eq!(none.reason.as_deref(), Some("sold_amount_zero"));
    let lots = tracker.account_sell_collect_at("Coal", 13, Coins(1.0), Some(Coins(1.0)), NOW);
    assert_eq!(
        lots.reason.as_deref(),
        Some("insufficient_fifo_lots: needed 13, available 0")
    );
    tracker.record_buy_cost_at("Coal", Coins(1.0), 13, NOW);
    let endless =
        tracker.account_sell_collect_at("Coal", 13, Coins(f64::INFINITY), Some(Coins(1.0)), NOW);
    assert_eq!(endless.reason.as_deref(), Some("missing_known_sell_claim_value"));
    assert_eq!(endless.cost_basis_status, CostBasisStatus::UnknownCostBasis);
    assert_eq!(endless.cost_basis_status.as_str(), "UNKNOWN_COST_BASIS");
    let snapshot = tracker.profit_audit_snapshot_at(NOW);
    assert_eq!(snapshot.unknown_cost_basis_sell_total_count, 3);
    assert_eq!(snapshot.last_sell_audit_at, Some(NOW));
    assert_eq!(
        snapshot.last_sell_audit.unwrap().reason.as_deref(),
        Some("missing_known_sell_claim_value")
    );
    let coal = snapshot.item_performance.get("coal").unwrap();
    assert_eq!(coal.failed_flips, 3);
    assert_eq!(coal.block_reason.as_deref(), Some("missing_known_sell_claim_value"));
}

#[test]
fn a_loss_counts_as_failure_and_a_partial_loss_twice() {
    let mut tracker = Tracker::new_in_memory();
    tracker.record_buy_cost_at("Coal", Coins(100.0), 10, NOW);
    let loss = tracker.account_sell_collect_at("Coal", 4, Coins(300.0), Some(Coins(300.0)), NOW);
    assert_eq!(loss.realized_profit, -100);
    let partial = tracker.account_sell_collect_at("Coal", 12, Coins(1000.0), Some(Coins(1.0)), NOW);
    assert_eq!(partial.cost_basis_status.as_str(), "PARTIAL_KNOWN_COST_BASIS");
    assert_eq!(partial.claimed_coins_after_tax, Coins(500.0));
    assert_eq!(partial.gross_list_value, Some(Coins(0.5)));
    assert_eq!(partial.realized_profit, -100);
    let snapshot = tracker.profit_audit_snapshot_at(NOW);
    let coal = snapshot.item_performance.get("coal").unwrap();
    assert_eq!(coal.failed_flips, 3);
    assert_eq!(coal.sell_orders_filled, 2);
    assert_eq!(coal.realized_profit_total, -200);
    assert_eq!(coal.avg_realized_profit_per_flip, Coins(-200.0));
    assert_eq!(snapshot.current_fifo_realized_profit_total, -200);
}

#[test]
fn halves_of_a_coin_round_away_from_zero() {
    let mut tracker = Tracker::new_in_memory();
    tracker.record_buy_cost_at("Coal", Coins(1.0), 2, NOW);
    let gain = tracker.account_sell_collect_at("Coal", 1, Coins(3.5), Some(Coins(3.5)), NOW);
    assert_eq!(gain.realized_profit, 3);
    let loss = tracker.account_sell_collect_at("Coal", 1, Coins(0.5), Some(Coins(0.5)), NOW);
    assert_eq!(loss.realized_profit, -1);
}

#[test]
fn announced_cost_is_the_cost_of_the_sale() {
    let mut tracker = Tracker::new_in_memory();
    tracker.record_buy_cost_at("Diamond", Coins(100.0), 5, NOW);
    tracker.record_buy_cost_at("Diamond", Coins(120.0), 5, NOW);
    let quoted = tracker.peek_fifo_cost_basis("Diamond", 8).unwrap();
    assert_eq!(quoted, Coins(860.0));
    assert_eq!(tracker.peek_fifo_cost_basis("Diamond", 0), None);
    assert_eq!(tracker.peek_fifo_cost_basis("Diamond", 11), None);
    assert_eq!(tracker.peek_fifo_cost_basis("Emerald", 1), None);
    let audit = tracker.account_sell_collect_at("Diamond", 8, Coins(1e3), Some(Coins(1e3)), NOW);
    assert_eq!(audit.cost_basis_total, quoted);
    assert_eq!(tracker.remaining_cost_lot_value_for("Diamond"), Coins(240.0));
}

#[test]
fn selling_in_parts_leaves_what_selling_at_once_leaves() {
    let mut parts = Tracker::new_in_memory();
    let mut whole = Tracker::new_in_memory();
    for tracker in [&mut parts, &mut whole] {
        tracker.record_buy_cost_at("Coal", Coins(1.0), 3, NOW);
        tracker.record_buy_cost_at("Coal", Coins(2.0), 3, NOW);
    }
    parts.account_sell_collect_at("Coal", 2, Coins(9.0), Some(Coins(9.0)), NOW);
    parts.account_sell_collect_at("Coal", 3, Coins(9.0), Some(Coins(9.0)), NOW);
    whole.account_sell_collect_at("Coal", 5, Coins(9.0), Some(Coins(9.0)), NOW);
    let lot = BuyCostLot { price_per_unit: Coins(2.0), amount: 1, collected_at: NOW };
    for tracker in [&parts, &whole] {
        let snapshot = tracker.profit_audit_snapshot_at(NOW);
        assert_eq!(snapshot.remaining_cost_lots.get("coal").unwrap(), &vec![lot]);
    }
}

#[test]
fn invalid_lots_are_ignored() {
    let mut tracker = Tracker::new_in_memory();
    tracker.record_buy_cost("Coal", Coins(0.0), 5);
    tracker.record_buy_cost("Coal", Coins(-1.0), 5);
    tracker.record_buy_cost("Coal", Coins(1.0), 0);
    assert_eq!(tracker.remaining_cost_lot_amount_for("Coal"), 0);
    assert!(tracker.cost_lots_to_save().is_empty());
}

#[test]
fn missing_units_go_from_the_newest_lots() {
    let mut tracker = Tracker::new_in_memory();
    tracker.record_buy_cost_at("Coal", Coins(100.0), 5, NOW);
    tracker.record_buy_cost_at("Coal", Coins(120.0), 5, NOW);
    tracker.record_planned_local_sell_at("Coal", Coins(200.0), None, NOW);
    assert_eq!(
        tracker.mark_cost_lot_excess_missing_from_inventory_at("Coal", 10, 3, NOW),
        None
    );
    assert_eq!(tracker.mark_cost_lots_missing_from_inventory_at("Emerald", 0, NOW), None);
    assert_eq!(
        tracker.mark_cost_lot_excess_missing_from_inventory_at("Coal", 3, 0, NOW),
        Some((7, Coins(800.0)))
    );
    assert_eq!(tracker.remaining_cost_lot_value_for("Coal"), Coins(300.0));
    assert!(tracker.planned_local_sell_at("Coal", NOW).is_some());
    assert_eq!(
        tracker.item_cooldown_reason_at("Coal", NOW),
        Some((NOW + 1800, "COST_LOT_NOT_IN_INVENTORY".to_string()))
    );
    assert_eq!(
        tracker.mark_cost_lots_missing_from_inventory_at("Coal", 0, NOW),
        Some((3, Coins(300.0)))
    );
    assert!(tracker.planned_local_sell_at("Coal", NOW).is_none());
    assert!(tracker.cost_lots_to_save().is_empty());
    let snapshot = tracker.profit_audit_snapshot_at(NOW);
    assert_eq!(snapshot.item_performance.get("coal").unwrap().failed_flips, 10);
}

#[test]
fn missing_units_are_dropped_by_the_clock_too() {
    let mut tracker = Tracker::new_in_memory();
    tracker.record_buy_cost("Coal", Coins(2.0), 5);
    assert_eq!(
        tracker.mark_cost_lot_excess_missing_from_inventory("Coal", 4, 4),
        Some((1, Coins(2.0)))
    );
    assert_eq!(
        tracker.mark_cost_lots_missing_from_inventory("Coal", 1),
        Some((3, Coins(6.0)))
    );
    assert!(tracker.item_cooldown_reason("Coal").is_some());
}

#[test]
fn planned_sells_last_two_minutes_and_are_taken_once() {
    let mut tracker = Tracker::new_in_memory();
    tracker.record_planned_local_sell_amount_at("Coal", Coins(5.0), None, 7, NOW);
    assert_eq!(tracker.planned_local_sell_amount_at("coal", NOW + 120), Some(7));
    assert_eq!(tracker.planned_local_sell_amount_at("coal", NOW + 121), None);
    assert_eq!(tracker.planned_local_sell_amount_at("coal", NOW), None);
    tracker.record_planned_local_sell_at("Coal", Coins(6.0), Some("COAL".to_string()), NOW);
    assert_eq!(tracker.planned_local_sell_amount_at("coal", u64::MAX), None);
    assert_eq!(
        tracker.planned_local_sell_at("Coal", u64::MAX),
        Some((Coins(6.0), Some("COAL".to_string()), None))
    );
    assert_eq!(
        tracker.take_planned_local_sell("COAL"),
        Some((Coins(6.0), Some("COAL".to_string())))
    );
    assert_eq!(tracker.take_planned_local_sell("COAL"), None);
    tracker.record_planned_local_sell("Coal", Coins(6.0), None);
    tracker.record_planned_local_sell_amount("Coal", Coins(8.0), None, 3);
    assert_eq!(tracker.planned_local_sell_amount("Coal"), Some(3));
}

#[test]
fn cooldowns_last_a_minute_at_least_and_are_never_shortened() {
    let mut tracker = Tracker::new_in_memory();
    tracker.cooldown_item_at("Coal", "  slow ", 5, NOW);
    assert_eq!(
        tracker.item_cooldown_reason_at("COAL", NOW + 59),
        Some((NOW + 60, "SLOW".to_string()))
    );
    assert_eq!(tracker.item_cooldown_reason_at("COAL", NOW + 60), None);
    assert_eq!(tracker.item_cooldown_reason_at("Diamond", NOW), None);
    tracker.cooldown_item_at("Coal", "long", 1000, NOW);
    tracker.cooldown_item_at("Coal", "short", 60, NOW);
    assert_eq!(
        tracker.item_cooldown_reason_at("Coal", NOW + 999),
        Some((NOW + 1000, "SHORT".to_string()))
    );
    // A failed lookup ends after two minutes, whatever was set before.
    tracker.record_product_lookup_failed_at("Coal", "  ", NOW);
    assert_eq!(
        tracker.item_cooldown_reason_at("Coal", NOW + 119),
        Some((NOW + 120, "PRODUCT_LOOKUP_FAILED".to_string()))
    );
    assert_eq!(tracker.item_cooldown_reason_at("Coal", NOW + 120), None);
    tracker.cooldown_item_at("Coal", "product_lookup_failed", 1000, NOW);
    assert_eq!(tracker.item_cooldown_reason_at("Coal", NOW + 120), None);
}

#[test]
fn the_first_buy_on_cooldown_is_found() {
    let mut tracker = Tracker::new_in_memory();
    placed(&mut tracker, "Diamond", 1, 1.0, true, NOW);
    placed(&mut tracker, "Coal", 1, 1.0, false, NOW);
    placed(&mut tracker, "Emerald", 1, 1.0, true, NOW);
    assert_eq!(tracker.active_buy_order_on_cooldown_at(NOW), None);
    tracker.cooldown_item_at("Coal", "x", 60, NOW);
    assert_eq!(tracker.active_buy_order_on_cooldown_at(NOW), None);
    tracker.cooldown_item_at("Emerald", "y", 60, NOW);
    assert_eq!(
        tracker.active_buy_order_on_cooldown_at(NOW),
        Some(("Emerald".to_string(), "Y".to_string(), NOW + 60))
    );
    tracker.cooldown_item("Diamond", "z", 60);
    assert_eq!(tracker.active_buy_order_on_cooldown().unwrap().0, "Diamond");
}

#[test]
fn duplicates_are_ranked_by_count_amount_and_age() {
    let mut tracker = Tracker::new_in_memory();
    assert_eq!(tracker.duplicate_active_sell_order_target(), None);
    placed(&mut tracker, "Coal", 5, 1.0, false, 20);
    placed(&mut tracker, "Coal", 5, 1.0, false, 30);
    placed(&mut tracker, "coal ", 0, 1.0, false, 1);
    placed(&mut tracker, "Diamond", 4, 1.0, false, 10);
    placed(&mut tracker, "DIAMOND", 6, 1.0, false, 10);
    // Same count and amount: the older first order wins, under its last name.
    assert_eq!(
        tracker.duplicate_active_sell_order_target(),
        Some(("DIAMOND".to_string(), 2, 10))
    );
    placed(&mut tracker, "Coal", 1, 1.0, false, 40);
    assert_eq!(
        tracker.duplicate_active_sell_order_target(),
        Some(("Coal".to_string(), 3, 11))
    );
}

#[test]
fn stale_orders_are_counted_found_and_removed() {
    let mut tracker = Tracker::new_in_memory();
    placed(&mut tracker, "Coal", 1, 1.0, true, 300);
    placed(&mut tracker, "Diamond", 1, 1.0, true, 100);
    placed(&mut tracker, "Emerald", 1, 1.0, true, 100);
    placed(&mut tracker, "Ruby", 1, 1.0, false, 50);
    assert_eq!(tracker.stale_order_count_at(true, 700, 1000), 3);
    assert_eq!(tracker.stale_order_count_at(true, 701, 1000), 2);
    assert_eq!(tracker.stale_order_count_at(true, 0, 0), 3);
    assert_eq!(tracker.oldest_stale_order_at(true, 700, 1000).unwrap().item_name, "Diamond");
    assert_eq!(tracker.oldest_stale_order_at(false, 951, 1000), None);
    assert_eq!(tracker.stale_order_count(true, 10), 3);
    assert_eq!(tracker.oldest_stale_order(false, 10).unwrap().item_name, "Ruby");
    // Orders of exactly the given age stay.
    assert_eq!(tracker.remove_stale_orders_at(950, 1000), 0);
    assert_eq!(tracker.remove_stale_orders_at(949, 1000), 1);
    assert_eq!(tracker.remove_stale_orders_at(900, 1000), 0);
    assert_eq!(tracker.get_orders().len(), 3);
    assert_eq!(tracker.remove_stale_orders_at(700, 1000), 2);
    assert_eq!(tracker.remove_stale_orders_at(0, 300), 0);
    assert_eq!(tracker.get_orders().len(), 1);
    assert_eq!(tracker.get_orders()[0].item_name, "Coal");
    assert_eq!(tracker.clear_all_orders(), 1);
    assert_eq!(tracker.clear_all_orders(), 0);
}

#[test]
fn fills_and_removals_meet_the_newest_order() {
    let mut tracker = Tracker::new_in_memory();
    placed(&mut tracker, "Coal", 1, 1.0, true, 10);
    placed(&mut tracker, "Coal", 2, 1.0, true, 5);
    tracker.mark_filled("Coal", false);
    assert_eq!(tracker.filled_order_count(true), 0);
    tracker.mark_filled("Coal", true);
    assert_eq!(tracker.get_orders()[1].status, "filled");
    tracker.mark_filled("Coal", true);
    assert_eq!(tracker.filled_order_count(true), 2);
    assert_eq!(tracker.filled_order_count(false), 0);
    assert_eq!(tracker.remove_oldest_order("Coal", true).unwrap().amount, 2);
    assert_eq!(tracker.remove_order("Coal", true).unwrap().amount, 1);
    assert_eq!(tracker.remove_oldest_order("Coal", true), None);
}

#[test]
fn collecting_takes_no_more_than_the_order_holds() {
    let mut tracker = Tracker::new_in_memory();
    assert_eq!(tracker.remove_or_reduce_order_on_collect("Coal", true, None), None);
    placed(&mut tracker, "Coal", 5, 1.0, true, NOW);
    let all = tracker.remove_or_reduce_order_on_collect("Coal", true, Some(9)).unwrap();
    assert_eq!(all.amount, 5);
    placed(&mut tracker, "Coal", 5, 1.0, true, NOW);
    let unsaid = tracker.remove_or_reduce_order_on_collect("Coal", true, Some(0)).unwrap();
    assert_eq!(unsaid.amount, 5);
    assert!(tracker.get_orders().is_empty());
}

#[test]
fn reconciling_takes_over_prices_and_amounts_that_are_shown() {
    let mut tracker = Tracker::new_in_memory();
    placed(&mut tracker, "Coal", 5, 10.0, true, 100);
    placed(&mut tracker, "Diamond", 5, 10.0, true, 100);
    placed(&mut tracker, "Emerald", 5, 10.0, true, 100);
    let rows = vec![
        ("Coal".to_string(), true, 7, Coins(10.005)),
        ("Diamond".to_string(), true, 0, Coins(0.0)),
        ("Emerald".to_string(), true, 5, Coins(10.02)),
    ];
    assert_eq!(tracker.reconcile_with_ingame_at(&rows, NOW), 0);
    let orders = tracker.get_orders();
    assert_eq!((orders[0].amount, orders[0].price_per_unit), (7, Coins(10.005)));
    assert_eq!(orders[0].placed_at, 100);
    assert_eq!((orders[1].amount, orders[1].price_per_unit), (5, Coins(10.0)));
    assert_eq!(orders[2].placed_at, NOW);
}

#[test]
fn reconciling_skips_sells_without_an_amount() {
    let mut tracker = Tracker::new_in_memory();
    let rows = vec![
        ("COAL".to_string(), false, 0, Coins(3.0)),
        ("Diamond".to_string(), true, 2, Coins(1.0)),
        ("Coal".to_string(), false, 4, Coins(3.0)),
        ("Coal".to_string(), false, 6, Coins(4.0)),
    ];
    assert_eq!(tracker.reconcile_with_ingame_at(&rows, NOW), 0);
    let orders = tracker.get_orders();
    let shown: Vec<(&str, u64)> = orders.iter().map(|o| (o.item_name.as_str(), o.amount)).collect();
    assert_eq!(shown, vec![("Diamond", 2), ("COAL", 4), ("COAL", 6)]);
    // What is shown again is met by what is tracked.
    assert_eq!(tracker.reconcile_with_ingame_at(&rows, NOW), 0);
    assert_eq!(tracker.get_orders().len(), 3);
}

#[test]
fn reconciling_deducts_what_was_collected_from_new_rows() {
    let mut tracker = Tracker::new_in_memory();
    tracker.record_buy_cost_at("Coal", Coins(1.0), 5, NOW);
    let rows = vec![
        ("Coal".to_string(), true, 3, Coins(1.0)),
        ("Coal".to_string(), true, 4, Coins(2.0)),
    ];
    assert_eq!(tracker.reconcile_with_ingame_at(&rows, NOW), 0);
    let orders = tracker.get_orders();
    // Units that cover a row whole leave it as it is.
    assert_eq!(orders.len(), 2);
    assert_eq!((orders[0].amount, orders[0].price_per_unit), (3, Coins(1.0)));
    assert_eq!((orders[1].amount, orders[1].price_per_unit), (2, Coins(2.0)));
    // A sell that was collected whole is not tracked again while it is still shown.
    placed(&mut tracker, "Ruby", 3, 9.0, false, NOW);
    tracker.remove_or_reduce_order_on_collect("Ruby", false, None);
    let rows = vec![("Ruby".to_string(), false, 3, Coins(9.0))];
    tracker.reconcile_with_ingame_at(&rows, NOW);
    assert_eq!(tracker.active_sell_order_count_for("Ruby"), 0);
    tracker.reconcile_with_ingame_at(&rows, NOW);
    assert_eq!(tracker.active_sell_order_count_for("Ruby"), 1);
    // What exceeds the fills is.
    tracker.remove_or_reduce_order_on_collect("Ruby", false, None);
    let rows = vec![("Ruby".to_string(), false, 5, Coins(9.0))];
    tracker.reconcile_with_ingame_at(&rows, NOW);
    assert_eq!(tracker.active_sell_amount_for("Ruby"), 2);
}

#[test]
fn reconciling_again_removes_nothing() {
    let mut tracker = Tracker::new_in_memory();
    placed(&mut tracker, "Ruby", 3, 9.0, false, NOW);
    placed(&mut tracker, "Coal", 3, 9.0, true, NOW);
    placed(&mut tracker, "Coal", 4, 9.0, true, NOW);
    tracker.record_buy_cost_at("Ruby", Coins(1.0), 3, NOW);
    let rows = vec![
        ("Coal".to_string(), true, 5, Coins(9.0)),
        ("Jade".to_string(), false, 5, Coins(9.0)),
    ];
    assert_eq!(tracker.reconcile_with_ingame_at(&rows, NOW), 1);
    assert_eq!(tracker.get_orders().len(), 3);
    assert_eq!(tracker.reconcile_with_ingame_at(&rows, NOW), 0);
    assert_eq!(tracker.get_orders().len(), 3);
}

#[test]
fn a_shown_order_of_an_item_that_is_held_is_added() {
    let mut tracker = Tracker::new_in_memory();
    tracker.record_buy_cost("Coal", Coins(500.0), 10);
    let rows = vec![("Coal".to_string(), true, 10, Coins(500.0))];
    assert_eq!(tracker.reconcile_with_ingame(&rows), 0);
    let orders = tracker.get_orders();
    assert_eq!(orders.len(), 1);
    assert_eq!(orders[0].item_name, "Coal");
    assert!(orders[0].is_buy_order);
    assert_eq!((orders[0].amount, orders[0].price_per_unit), (10, Coins(500.0)));
    assert_eq!(orders[0].status, "open");
    // A buy row without an amount adds nothing.
    let rows = vec![("Ruby".to_string(), true, 0, Coins(1.0))];
    assert_eq!(tracker.reconcile_with_ingame(&rows), 1);
    assert!(tracker.get_orders().is_empty());
}

#[test]
fn peeking_foretells_collecting() {
    let mut tracker = Tracker::new_in_memory();
    tracker.record_buy_cost_at("Coal", Coins(2.5), 4, NOW);
    tracker.record_buy_cost_at("Coal", Coins(3.0), 9, NOW);
    let cost = tracker.peek_fifo_cost_basis("Coal", 7).unwrap();
    assert_eq!(cost, Coins(19.0));
    let audit = tracker.account_sell_collect_at("Coal", 7, Coins(33.7), Some(Coins(35.0)), NOW);
    assert_eq!(audit.cost_basis_total, cost);
    assert_eq!(audit.claimed_coins_after_tax, Coins(33.7));
    assert_eq!(audit.realized_profit, (33.7f64 - cost.0).round() as i64);
    assert_eq!(audit.realized_profit, 15);
}

#[test]
fn snapshots_sum_up_orders_and_lots() {
    let mut tracker = Tracker::new_in_memory();
    placed(&mut tracker, "Coal", 10, 5.0, true, NOW - 1200);
    placed(&mut tracker, "Coal", 4, 8.0, false, NOW - 1199);
    tracker.record_buy_cost_at("Coal", Coins(6.0), 4, NOW - 50);
    tracker.record_buy_cost_at("Diamond", Coins(7.0), 2, NOW - 70);
    tracker.record_buy_cost_at("Emerald", Coins(3.0), 1, NOW);
    tracker.record_product_lookup_failed_at("Emerald", "", NOW);
    tracker.set_end_phase_state("CLEANUP".to_string());
    tracker.record_reprice("Coal");
    let s = tracker.profit_audit_snapshot_at(NOW);
    assert_eq!(s.open_buy_capital, Coins(50.0));
    assert_eq!(s.open_sell_value, Coins(32.0));
    assert_eq!((s.active_buy_orders, s.active_sell_orders), (1, 1));
    assert_eq!((s.stale_buy_orders, s.stale_sell_orders), (1, 0));
    assert_eq!(s.estimated_sell_value_after_tax, Coins(32.0 * (1.0 - 0.0125)));
    assert_eq!(s.remaining_cost_lot_value, Coins(24.0 + 14.0 + 3.0));
    assert_eq!(s.estimated_unrealized_profit, Coins(32.0 * (1.0 - 0.0125) - 41.0));
    assert_eq!(s.items_waiting_for_sell, vec!["diamond".to_string()]);
    assert_eq!(s.actionable_cost_lot_value, Coins(14.0));
    assert_eq!(s.blocked_items_waiting_for_sell, vec!["emerald".to_string()]);
    assert_eq!(s.blocked_cost_lot_value, Coins(3.0));
    assert_eq!(s.cleanup_state, "CLEANUP");
    assert_eq!(tracker.end_phase_state(), "CLEANUP");
    let coal = s.item_performance.get("coal").unwrap();
    assert_eq!(coal.current_open_buy_capital, Coins(50.0));
    assert_eq!(coal.current_open_sell_value, Coins(32.0));
    assert_eq!(coal.current_cost_lot_value, Coins(24.0));
    assert_eq!(coal.max_cost_lot_age_seconds, 50);
    assert_eq!((coal.buy_orders_placed, coal.sell_orders_placed, coal.reprice_count), (1, 1, 1));
    assert_eq!(tracker.open_order_value_for("coal", true), Coins(50.0));
    let blank: BazaarProfitAuditSnapshot<Coins> = Default::default();
    assert_eq!(blank.web_graph_source, "");
    assert_eq!(blank.open_buy_capital, Coins(0.0));
}

#[test]
fn saved_state_is_filed_by_key() {
    let order = TrackedBazaarOrder {
        item_name: "Coal".to_string(),
        amount: 1,
        price_per_unit: Coins(2.0),
        is_buy_order: true,
        status: "open".to_string(),
        placed_at: 7,
    };
    let lot = |price: f64| BuyCostLot { price_per_unit: Coins(price), amount: 1, collected_at: 0 };
    let mut nameless: ItemPerformance<Coins> = ItemPerformance::default();
    nameless.product_id = "  Fine Ruby Gem ".to_string();
    nameless.failed_flips = 3;
    let mut plain: ItemPerformance<Coins> = ItemPerformance::default();
    plain.item_name = "Iron Ingot".to_string();
    let tracker = Tracker::new(
        vec![order.clone()],
        vec![
            ("COAL".to_string(), vec![lot(1.0)]),
            (" coal".to_string(), vec![lot(2.0), lot(3.0)]),
        ],
        vec![nameless, plain],
    );
    assert_eq!(tracker.get_orders(), vec![order]);
    assert_eq!(
        tracker.cost_lots_to_save(),
        vec![("coal".to_string(), vec![lot(1.0), lot(2.0), lot(3.0)])]
    );
    let performance = tracker.performance_to_save();
    assert_eq!(performance[0].0, "fine ruby gemstone");
    assert_eq!(performance[0].1.product_id, "  Fine Ruby Gem ");
    assert_eq!(performance[1].0, "iron ingot");
    assert_eq!(performance[1].1.product_id, "iron ingot");
}

#[test]
fn lots_filed_under_any_display_of_a_name_come_back() {
    let mut tracker = Tracker::new_in_memory();
    tracker.record_buy_cost_at("\u{a7}a\u{270e} Fine  RUBY Gem ", Coins(2.0), 3, NOW);
    tracker.record_buy_cost_at("fine ruby gemstone", Coins(4.0), 1, NOW);
    let saved = tracker.cost_lots_to_save();
    assert_eq!(saved.len(), 1);
    assert_eq!(saved[0].0, "fine ruby gemstone");
    let again = Tracker::new(Vec::new(), saved.clone(), Vec::new());
    assert_eq!(again.cost_lots_to_save(), saved);
}

#[test]
fn what_is_saved_comes_back() {
    let mut tracker = Tracker::new_in_memory();
    placed(&mut tracker, "Coal", 10, 5.0, true, NOW);
    tracker.record_buy_cost_at("Coal", Coins(6.0), 4, NOW);
    tracker.record_buy_cost_at("Diamond", Coins(7.0), 2, NOW);
    tracker.cooldown_item_at("Coal", "x", 60, NOW);
    let again = Tracker::new(
        tracker.get_orders(),
        tracker.cost_lots_to_save(),
        tracker.performance_to_save().into_iter().map(|(_, p)| p).collect(),
    );
    assert_eq!(again.get_orders(), tracker.get_orders());
    assert_eq!(again.cost_lots_to_save(), tracker.cost_lots_to_save());
    assert_eq!(
        again.item_cooldown_reason_at("Coal", NOW),
        Some((NOW + 60, "X".to_string()))
    );
    assert_eq!(again.end_phase_state(), "IDLE");
}

#[test]
fn used_up_lots_do_not_linger() {
    let mut tracker = Tracker::new_in_memory();
    tracker.record_buy_cost_at("Coal", Coins(1.0), 2, NOW);
    tracker.record_buy_cost_at("Coal", Coins(2.0), 3, NOW);
    tracker.record_buy_cost_at("Ruby", Coins(9.0), 1, NOW);
    tracker.account_sell_collect_at("Coal", 2, Coins(10.0), Some(Coins(10.0)), NOW);
    let second = BuyCostLot { price_per_unit: Coins(2.0), amount: 3, collected_at: NOW };
    let saved = tracker.cost_lots_to_save();
    assert_eq!(saved.len(), 2);
    assert_eq!(saved[0], ("coal".to_string(), vec![second]));
    tracker.account_sell_collect_at("Coal", 3, Coins(10.0), Some(Coins(10.0)), NOW);
    let saved = tracker.cost_lots_to_save();
    assert_eq!(saved.len(), 1);
    assert_eq!(saved[0].0, "ruby");
    assert_eq!(tracker.take_buy_cost("Ruby"), Some((Coins(9.0), 1)));
    assert!(tracker.cost_lots_to_save().is_empty());
}

#[test]
fn reconciling_removes_only_orders_beyond_the_rows() {
    let mut tracker = Tracker::new_in_memory();
    placed(&mut tracker, "Diamond", 7, 10.0, true, 100);
    placed(&mut tracker, "Diamond", 8, 11.0, true, 101);
    let row = || ("Diamond".to_string(), true, 7, Coins(10.0));
    assert_eq!(tracker.reconcile_with_ingame_at(&[row(), row()], NOW), 0);
    assert_eq!(tracker.get_orders().len(), 2);
    assert_eq!(tracker.reconcile_with_ingame_at(&[row()], NOW), 1);
    let orders = tracker.get_orders();
    assert_eq!(orders.len(), 1);
    assert_eq!(orders[0].placed_at, 100);
}
