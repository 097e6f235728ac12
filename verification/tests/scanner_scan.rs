use purse_pilot::bazaar_scanner::flips::plan_flip;
use purse_pilot::bazaar_scanner::scan::{active_capital, blocked_scan, has_usable_reserve};
use purse_pilot::bazaar_scanner::{
    best_flips, depth_metrics, evaluate_position_limits, fit_budget, gemstone_tag_to_name,
    history_factors, item_tag_to_name, practical_score, product_quote, product_quotes, rank_flips,
    recommendation_for, relative_deviation, risk_level_for, screen_product, should_reprice,
    should_reprice_sell, summarize_scan, tally_reasons, title_case_tag, BazaarProduct, BazaarResponse,
    CandidateDecision, LocalBazaarFlip, LocalBazaarScanConfig, MarketHistory, MarketSnapshot,
    MarketUnavailable, OrderBookLevel, PracticalItemMetrics, QuickStatus, Recommendation,
    RejectReason, RiskLevel,
};
use purse_pilot::number::Number;

/// Coins as `f64`.
#[derive(Debug, Clone, Copy, PartialEq, PartialOrd)]
struct Coins(f64);

impl Number for Coins {
    fn whole(n: u64) -> Self {
        Self::from_u64(n)
    }
    fn signed(n: i64) -> Self {
        Self::from_i64(n)
    }
    fn spec_plus(self, other: Self) -> Self {
        self.plus(other)
    }
    fn spec_minus(self, other: Self) -> Self {
        self.minus(other)
    }
    fn spec_times(self, other: Self) -> Self {
        self.times(other)
    }
    fn spec_over(self, other: Self) -> Self {
        self.over(other)
    }
    fn spec_magnitude(self) -> Self {
        self.magnitude()
    }
    fn spec_root(self) -> Self {
        self.root()
    }
    fn spec_larger(self, other: Self) -> Self {
        self.larger(other)
    }
    fn spec_smaller(self, other: Self) -> Self {
        self.smaller(other)
    }
    fn spec_below(self, other: Self) -> bool {
        self.below(other)
    }
    fn spec_at_most(self, other: Self) -> bool {
        self.at_most(other)
    }
    fn spec_is_finite(self) -> bool {
        self.is_finite()
    }
    fn spec_rounded(self) -> i64 {
        self.rounded()
    }
    fn spec_whole_part(self) -> u64 {
        self.whole_part()
    }
    fn below_is_asymmetric(_a: Self, _b: Self) {}
    fn below_is_cotransitive(_a: Self, _b: Self, _c: Self) {}
    fn whole_over_itself(_n: u64) {}
    fn times_one(_a: Self) {}
    fn from_u64(n: u64) -> Self {
        Coins(n as f64)
    }
    fn from_i64(n: i64) -> Self {
        Coins(n as f64)
    }
    fn plus(self, other: Self) -> Self {
        Coins(self.0 + other.0)
    }
    fn minus(self, other: Self) -> Self {
        Coins(self.0 - other.0)
    }
    fn times(self, other: Self) -> Self {
        Coins(self.0 * other.0)
    }
    fn over(self, other: Self) -> Self {
        Coins(self.0 / other.0)
    }
    fn magnitude(self) -> Self {
        Coins(self.0.abs())
    }
    fn root(self) -> Self {
        Coins(self.0.sqrt())
    }
    fn larger(self, other: Self) -> Self {
        Coins(self.0.max(other.0))
    }
    fn smaller(self, other: Self) -> Self {
        Coins(self.0.min(other.0))
    }
    fn below(self, other: Self) -> bool {
        self.0 < other.0
    }
    fn at_most(self, other: Self) -> bool {
        self.0 <= other.0
    }
    fn is_finite(self) -> bool {
        self.0.is_finite()
    }
    fn rounded(self) -> i64 {
        self.0.round() as i64
    }
    fn whole_part(self) -> u64 {
        self.0.floor() as u64
    }
}

fn test_config() -> LocalBazaarScanConfig<Coins> {
    LocalBazaarScanConfig {
        min_profit_per_unit: Coins(5.0),
        min_total_profit: Coins(15_000.0),
        min_margin_percent: Coins(1.25),
        max_margin_percent: Coins(32.0),
        min_buy_volume: 15_000,
        min_sell_volume: 25_000,
        min_order_count: 40,
        min_moving_week: 1_000_000,
        max_order_value: 5_000_000,
        max_amount: 71_680,
        price_undercut: Coins(0.1),
        bazaar_tax_rate: Coins(1.25),
        max_concurrent_orders: 6,
        target_profit_per_hour: Coins(2_000_000.0),
        enable_classic_potato_book_flips: true,
        total_capital: 30_000_000,
        active_capital_ratio: Coins(0.78),
        reserve_ratio: Coins(0.22),
        max_items: 8,
        max_capital_per_item: 5_000_000,
        min_roi_percent: Coins(1.0),
        target_roi_percent: Coins(2.0),
        min_volume_value_hour: Coins(15_000_000.0),
        preferred_volume_value_hour: Coins(50_000_000.0),
        market_participation_rate: Coins(0.12),
        conservative_market_participation_rate: Coins(0.06),
        history_window_minutes: 60,
        inventory_free_slots: 30,
        min_free_inventory_slots: 10,
        active_buy_order_count: 0,
        active_sell_order_count: 0,
        inventory_sellable_stacks: 0,
        max_pending_buy_stacks: 6,
        buy_sell_balance_limit: Coins(1.10),
        total_cost_lot_value: Coins(0.0),
        open_buy_capital: Coins(0.0),
        open_sell_value: Coins(0.0),
        max_cost_lot_capital_ratio: Coins(0.35),
        max_open_buy_capital_ratio: Coins(0.35),
        per_item_exposure_cap: 3_000_000,
        min_reprice_profit_improvement: Coins(75_000.0),
        min_reprice_interval_seconds: 240,
        max_reprices_per_item_per_hour: 3,
        reprice_cooldown_seconds: 360,
    }
}

fn level(amount: u64, price: f64, orders: u64) -> OrderBookLevel<Coins> {
    OrderBookLevel { amount, price_per_unit: Coins(price), orders }
}

fn diamond() -> BazaarProduct<Coins> {
    BazaarProduct {
        quick_status: QuickStatus {
            buy_price: Coins(1100.0),
            sell_price: Coins(1000.0),
            buy_volume: 200_000,
            sell_volume: 300_000,
            buy_orders: 100,
            sell_orders: 120,
            buy_moving_week: 20_000_000,
            sell_moving_week: 24_000_000,
        },
        buy_summary: vec![level(5000, 1100.0, 5), level(6000, 1101.0, 4)],
        sell_summary: vec![level(7000, 1000.0, 6), level(8000, 999.0, 7)],
    }
}

fn response(products: Vec<(&str, BazaarProduct<Coins>)>) -> BazaarResponse<Coins> {
    BazaarResponse {
        success: true,
        products: products.into_iter().map(|(tag, p)| (tag.to_string(), p)).collect(),
    }
}

fn past(timestamp: u64, price: f64, spread: f64) -> MarketSnapshot<Coins> {
    MarketSnapshot {
        timestamp,
        product_id: "ENCHANTED_DIAMOND".to_string(),
        best_buy_order: Coins(0.0),
        best_sell_offer: Coins(0.0),
        target_buy_price: Coins(0.0),
        target_sell_price: Coins(price),
        spread: Coins(spread),
        net_spread: Coins(0.0),
        roi: Coins(0.0),
        buy_volume_hour: Coins(0.0),
        sell_volume_hour: Coins(0.0),
        top_buy_depth_value: Coins(0.0),
        top_sell_depth_value: Coins(0.0),
        score: Coins(0.0),
        risk_level: "pending".to_string(),
    }
}

#[test]
fn a_liquid_product_becomes_a_flip() {
    let mut history = MarketHistory::new();
    let report = best_flips(
        &response(vec![("ENCHANTED_DIAMOND", diamond())]),
        &test_config(),
        8,
        &mut history,
        10_000,
    )
    .unwrap();
    assert_eq!(report.flips.len(), 1);
    assert!(report.rejected.is_empty());
    let flip = &report.flips[0];
    assert_eq!(flip.item_tag, "ENCHANTED_DIAMOND");
    assert_eq!(flip.product_id, "ENCHANTED_DIAMOND");
    assert_eq!(flip.item_name, "Enchanted Diamond");
    assert_eq!(flip.amount, 3509);
    assert_eq!(flip.buy_price_per_unit, Coins(1000.1));
    assert_eq!(flip.sell_price_per_unit, Coins(1099.9));
    assert_eq!(flip.best_buy_order, Coins(1000.0));
    assert_eq!(flip.best_sell_offer, Coins(1100.0));
    assert_eq!(flip.profit_per_unit, Coins(86.0512500000001));
    assert_eq!(flip.total_profit, Coins(301953.83625000034));
    assert_eq!(flip.margin_percent, Coins(8.604264573542656));
    assert_eq!(flip.roi_after_tax, Coins(0.08604264573542655));
    assert_eq!(flip.spread_before_tax, Coins(99.80000000000007));
    assert_eq!(flip.buy_volume_hour, Coins(119047.61904761905));
    assert_eq!(flip.sell_volume_hour, Coins(142857.14285714287));
    assert_eq!(flip.volume_value_hour, Coins(119059523.80952382));
    assert_eq!(flip.moving_week, 20_000_000);
    assert_eq!(flip.top_buy_depth_value, Coins(7000000.0));
    assert_eq!(flip.top_sell_depth_value, Coins(5500000.0));
    assert_eq!(flip.depth_5_buy_value, Coins(14992000.0));
    assert_eq!(flip.depth_5_sell_value, Coins(12106000.0));
    assert_eq!(flip.avg_buy_depth_value, Coins(7496000.0));
    assert_eq!(flip.avg_sell_depth_value, Coins(6053000.0));
    assert_eq!(flip.estimated_cycles_per_hour, Coins(4.028715790887269));
    assert_eq!(flip.allocated_capital, Coins(3509350.9));
    assert_eq!(flip.expected_profit_per_hour, Coins(1216486.188219365));
    assert_eq!(flip.score, Coins(119441.94276882456));
    assert_eq!(flip.risk_adjusted_expected_profit_per_hour, flip.score);
    assert_eq!(flip.risk_level, RiskLevel::Low);
    assert_eq!(flip.risk_notes, vec!["limited_history".to_string()]);
    assert_eq!(flip.recommendation, Recommendation::StrongCandidate);
    assert_eq!(report.allocated_total, Coins(3509350.9));
    assert_eq!(report.logged.len(), 1);
    assert_eq!(report.logged[0].risk_level, "Low");
    assert_eq!(report.logged[0].score, flip.score);
    let noted = &history.products.get("ENCHANTED_DIAMOND").unwrap().snapshots;
    assert_eq!(noted.len(), 1);
    assert_eq!(noted[0].timestamp, 10_000);
    assert_eq!(noted[0].risk_level, "pending");
    assert_eq!(noted[0].target_sell_price, Coins(1099.9));

    let summary = summarize_scan(&report, &test_config());
    assert_eq!(summary.risk_adjusted_total, flip.score);
    assert_eq!(summary.expected_total, Coins(1216486.188219365));
    assert_eq!(summary.hourly_roi, Coins(119441.94276882456 / 30_000_000.0));
    assert!(!summary.target_met);
    assert_eq!(summary.active_capital, Coins(23400000.0));
    assert_eq!(summary.reserved_capital, Coins(6600000.0));
    assert_eq!(summary.free_capital, Coins(23400000.0 - 3509350.9));
}

#[test]
fn a_stable_history_raises_the_score() {
    let mut history = MarketHistory::new();
    history.store(
        "ENCHANTED_DIAMOND",
        vec![
            past(100, 5.0, 5.0),
            past(9_000, 1099.9, 99.8),
            past(9_100, 1100.9, 100.0),
            past(9_200, 1098.9, 99.0),
        ],
    );
    let report = best_flips(
        &response(vec![("ENCHANTED_DIAMOND", diamond())]),
        &test_config(),
        8,
        &mut history,
        10_000,
    )
    .unwrap();
    // The snapshot of 100 is older than the window of an hour.
    assert_eq!(history.products.get("ENCHANTED_DIAMOND").unwrap().snapshots.len(), 4);
    assert_eq!(report.flips[0].score, Coins(284115.61563903635));
    assert!(report.flips[0].risk_notes.is_empty());
}

#[test]
fn history_factors_follow_the_deviation() {
    let few = vec![past(1, 100.0, 10.0), past(2, 100.0, 10.0)];
    let (stability, spread, note) = history_factors(&few, Coins(100.0), Coins(10.0));
    assert_eq!((stability, spread), (Coins(0.72), Coins(0.70)));
    assert_eq!(note.as_deref(), Some("limited_history"));

    let steady = vec![past(1, 100.0, 10.0), past(2, 100.0, 10.0), past(3, 100.0, 10.0)];
    let (stability, spread, note) = history_factors(&steady, Coins(120.0), Coins(10.0));
    assert_eq!((stability, spread), (Coins(0.3999999999999999), Coins(1.0)));
    assert_eq!(note.as_deref(), Some("price_or_spread_spike"));

    let restless = vec![past(1, 100.0, 10.0), past(2, 101.0, 10.0), past(3, 100.0, 10.0)];
    let (stability, _, note) = history_factors(&restless, Coins(100.0), Coins(10.0));
    assert_eq!(stability, Coins(0.756699889258029));
    assert_eq!(note.as_deref(), Some("top_price_changes_often"));

    assert_eq!(relative_deviation(Coins(5.0), Coins(0.0)), Coins(0.0));
    assert_eq!(relative_deviation(Coins(90.0), Coins(100.0)), Coins(0.1));
}

#[test]
fn a_spike_is_tallied_and_keeps_the_product() {
    let mut history = MarketHistory::new();
    history.store(
        "ENCHANTED_DIAMOND",
        vec![past(9_000, 800.0, 99.8), past(9_100, 800.0, 99.8), past(9_200, 800.0, 99.8)],
    );
    let report = best_flips(
        &response(vec![("ENCHANTED_DIAMOND", diamond())]),
        &test_config(),
        8,
        &mut history,
        10_000,
    )
    .unwrap();
    assert_eq!(report.rejected[0], RejectReason::UnstableHistory);
    assert_eq!(report.rejected[0].as_str(), "UNSTABLE_HISTORY");
}

#[test]
fn first_screening_names_each_reason() {
    let config = test_config();
    let reason = |tag: &str, p: &BazaarProduct<Coins>, c: &LocalBazaarScanConfig<Coins>| {
        screen_product(tag, p, c).err()
    };
    let fine = diamond();
    assert_eq!(reason("ENCHANTED_DIAMOND", &fine, &config), None);
    assert_eq!(
        reason("ESSENCE_UNDEAD", &fine, &config),
        Some(RejectReason::UnsupportedProductLookup)
    );
    let mut p = diamond();
    p.quick_status.sell_price = Coins(0.0);
    assert_eq!(reason("X", &p, &config), Some(RejectReason::InvalidPrice));
    let mut p = diamond();
    p.buy_summary = Vec::new();
    assert_eq!(reason("X", &p, &config), Some(RejectReason::ThinOrderbook));
    let mut p = diamond();
    p.quick_status.buy_orders = 39;
    assert_eq!(reason("X", &p, &config), Some(RejectReason::LowVolume));
    let mut p = diamond();
    p.buy_summary[0].price_per_unit = Coins(1010.0);
    assert_eq!(reason("X", &p, &config), Some(RejectReason::LowRoiAfterTax));
    let mut p = diamond();
    p.buy_summary[0].price_per_unit = Coins(1025.0);
    assert_eq!(reason("X", &p, &config), Some(RejectReason::LowRoiAfterTax));
    let mut p = diamond();
    p.buy_summary[0].price_per_unit = Coins(1400.0);
    assert_eq!(reason("X", &p, &config), Some(RejectReason::ManipulationRisk));
    let mut p = diamond();
    p.quick_status.buy_moving_week = 1_000_000;
    assert_eq!(reason("X", &p, &config), Some(RejectReason::LowVolume));
    let mut c = test_config();
    c.min_volume_value_hour = Coins(0.0);
    let mut p = diamond();
    p.quick_status.sell_moving_week = 100_000;
    assert_eq!(reason("X", &p, &c), Some(RejectReason::LowVolume));
    let mut p = diamond();
    p.quick_status.sell_moving_week = 4_000_000;
    assert_eq!(reason("X", &p, &config), Some(RejectReason::LowSellLiquidity));
    let mut p = diamond();
    p.buy_summary[0].amount = 0;
    p.buy_summary[1].amount = 0;
    assert_eq!(reason("X", &p, &config), Some(RejectReason::ThinOrderbook));
    // A classic flip passes whatever its volume.
    let mut p = diamond();
    p.quick_status.buy_orders = 0;
    p.quick_status.buy_moving_week = 0;
    assert_eq!(reason("HOT_POTATO_BOOK", &p, &config), None);
}

#[test]
fn plans_are_refused_for_want_of_capital_or_for_risk() {
    let config = test_config();
    let p = diamond();
    let f = screen_product("X", &p, &config).unwrap();
    let plan = |active: f64, notes: Vec<String>, c: &LocalBazaarScanConfig<Coins>| {
        plan_flip("X", false, &p, &f, Coins(1.0), Coins(1.0), notes, Coins(active), c)
    };
    assert!(plan(23_400_000.0, Vec::new(), &config).is_ok());
    assert_eq!(plan(100.0, Vec::new(), &config).err(), Some(RejectReason::CapitalLimit));
    let mut greedy = test_config();
    greedy.min_total_profit = Coins(1e12);
    assert_eq!(
        plan(23_400_000.0, Vec::new(), &greedy).err(),
        Some(RejectReason::CapitalLimit)
    );
    let mut ambitious = test_config();
    ambitious.target_profit_per_hour = Coins(1e12);
    assert_eq!(
        plan(23_400_000.0, Vec::new(), &ambitious).err(),
        Some(RejectReason::CapitalLimit)
    );
    let mut thin = diamond();
    thin.quick_status.buy_moving_week = 300_000;
    thin.quick_status.sell_moving_week = 300_000;
    let mut loose = test_config();
    loose.min_volume_value_hour = Coins(0.0);
    loose.min_buy_volume = 0;
    loose.target_profit_per_hour = Coins(0.0);
    loose.max_items = 1000;
    loose.min_total_profit = Coins(0.0);
    let g = screen_product("X", &thin, &loose).unwrap();
    let risky = plan_flip(
        "X",
        false,
        &thin,
        &g,
        Coins(1.0),
        Coins(1.0),
        vec!["price_or_spread_spike".to_string()],
        Coins(23_400_000.0),
        &loose,
    );
    assert_eq!(risky.err(), Some(RejectReason::ManipulationRisk));
}

#[test]
fn whole_scans_are_skipped() {
    let config = test_config();
    assert_eq!(blocked_scan(&config), None);
    let mut c = test_config();
    c.total_cost_lot_value = Coins(10_500_000.1);
    assert_eq!(blocked_scan(&c), Some(RejectReason::TooMuchOpenCostBasis));
    let mut c = test_config();
    c.open_buy_capital = Coins(10_500_000.1);
    assert_eq!(blocked_scan(&c), Some(RejectReason::TooMuchOpenCapital));
    c.total_capital = 0;
    assert_eq!(blocked_scan(&c), None);
    let mut c = test_config();
    c.inventory_free_slots = 10;
    assert_eq!(blocked_scan(&c), Some(RejectReason::InventoryRisk));
    let mut c = test_config();
    c.active_buy_order_count = 6;
    assert_eq!(blocked_scan(&c), Some(RejectReason::TooManyActiveBuys));
    let mut c = test_config();
    c.active_sell_order_count = 12;
    assert_eq!(blocked_scan(&c), None);
    c.active_sell_order_count = 13;
    assert_eq!(blocked_scan(&c), Some(RejectReason::TooManyActiveSells));

    let mut history = MarketHistory::new();
    let report = best_flips(
        &response(vec![("ENCHANTED_DIAMOND", diamond())]),
        &c,
        8,
        &mut history,
        10_000,
    )
    .unwrap();
    assert!(report.flips.is_empty() && report.logged.is_empty());
    assert_eq!(report.rejected, vec![RejectReason::TooManyActiveSells]);
    assert!(history.products.get("ENCHANTED_DIAMOND").is_none());
}

#[test]
fn a_failed_answer_is_reported() {
    let mut answer = response(vec![("ENCHANTED_DIAMOND", diamond())]);
    answer.success = false;
    let mut history = MarketHistory::new();
    assert_eq!(
        best_flips(&answer, &test_config(), 8, &mut history, 1).err(),
        Some(MarketUnavailable)
    );
    assert_eq!(product_quotes(&answer).err(), Some(MarketUnavailable));
    assert_eq!(product_quote(&answer, "ENCHANTED_DIAMOND").err(), Some(MarketUnavailable));
}

#[test]
fn quotes_name_the_product() {
    let answer = response(vec![("ENCHANTED_WATER_LILY", diamond()), ("COAL", diamond())]);
    let quotes = product_quotes(&answer).unwrap();
    assert_eq!(quotes.len(), 2);
    assert_eq!(quotes[0].item_tag, "ENCHANTED_WATER_LILY");
    assert_eq!(quotes[0].item_name, "Enchanted Lily Pad");
    let coal = product_quote(&answer, "COAL").unwrap().unwrap();
    assert_eq!(coal.item_name, "Coal");
    assert_eq!(coal.buy_price, Coins(1100.0));
    assert_eq!(coal.sell_price, Coins(1000.0));
    assert_eq!((coal.buy_volume, coal.sell_volume), (200_000, 300_000));
    assert_eq!(coal.moving_week, 20_000_000);
    assert!(product_quote(&answer, "DIAMOND").unwrap().is_none());
}

#[test]
fn a_reserve_that_is_no_number_is_not_usable() {
    let mut config = test_config();
    assert!(has_usable_reserve(&config));
    assert_eq!(active_capital(&config), Coins(23_400_000.0));
    config.reserve_ratio = Coins(7.0);
    assert!(has_usable_reserve(&config));
    config.reserve_ratio = Coins(f64::NAN);
    assert!(!has_usable_reserve(&config));
}

fn flip(name: &str, profit: f64, volume: f64, roi: f64, capital: f64) -> LocalBazaarFlip<Coins> {
    let zero = Coins(0.0);
    LocalBazaarFlip {
        item_tag: name.to_string(),
        item_name: name.to_string(),
        amount: 1,
        buy_price_per_unit: zero,
        sell_price_per_unit: zero,
        profit_per_unit: zero,
        total_profit: zero,
        margin_percent: zero,
        buy_volume: 0,
        sell_volume: 0,
        moving_week: 0,
        estimated_profit_per_hour: zero,
        score: zero,
        product_id: name.to_string(),
        best_buy_order: zero,
        best_sell_offer: zero,
        target_buy_price: zero,
        target_sell_price: zero,
        spread_before_tax: zero,
        spread_after_tax: zero,
        roi_after_tax: Coins(roi),
        buy_volume_hour: zero,
        sell_volume_hour: zero,
        volume_value_hour: Coins(volume),
        top_buy_depth_value: zero,
        top_sell_depth_value: zero,
        avg_buy_depth_value: zero,
        avg_sell_depth_value: zero,
        depth_5_buy_value: zero,
        depth_5_sell_value: zero,
        estimated_cycles_per_hour: zero,
        allocated_capital: Coins(capital),
        expected_profit_per_hour: zero,
        risk_adjusted_expected_profit_per_hour: Coins(profit),
        risk_level: RiskLevel::Low,
        risk_notes: Vec::new(),
        recommendation: Recommendation::Avoid,
    }
}

#[test]
fn flips_are_ranked_by_profit_then_volume_then_margin() {
    let flips = vec![
        flip("d", 1.0, 9.0, 9.0, 0.0),
        flip("c", 2.0, 1.0, 9.0, 0.0),
        flip("b", 2.0, 2.0, 1.0, 0.0),
        flip("a", 2.0, 2.0, 2.0, 0.0),
        flip("e", 1.0, 9.0, 9.0, 0.0),
    ];
    let ranked = rank_flips(&flips);
    let names: Vec<&str> = ranked.iter().map(|f| f.item_tag.as_str()).collect();
    assert_eq!(names, vec!["a", "b", "c", "d", "e"]);
}

#[test]
fn flips_beyond_the_budget_are_left_out() {
    let flips = vec![
        flip("a", 3.0, 0.0, 0.0, 60.0),
        flip("b", 2.0, 0.0, 0.0, 50.0),
        flip("c", 1.0, 0.0, 0.0, 40.0),
    ];
    let (kept, total) = fit_budget(&flips, Coins(100.0));
    let names: Vec<&str> = kept.iter().map(|f| f.item_tag.as_str()).collect();
    assert_eq!(names, vec!["a", "c"]);
    assert_eq!(total, Coins(100.0));
}

#[test]
fn a_scan_returns_no_more_than_asked_for() {
    let mut config = test_config();
    config.max_items = 1;
    config.max_order_value = 0;
    config.max_capital_per_item = 1_000_000;
    let products = vec![("A_ONE", diamond()), ("A_TWO", diamond()), ("A_THREE", diamond())];
    let mut history = MarketHistory::new();
    let report = best_flips(&response(products), &config, 2, &mut history, 10_000).unwrap();
    assert_eq!(report.flips.len(), 2);
    assert_eq!(report.logged.len(), 3);
    assert_eq!(report.flips[0].item_name, "A One");
    // The flips are of different products and within the budget.
    assert_ne!(report.flips[0].item_tag, report.flips[1].item_tag);
    let taken = report.flips[0].allocated_capital.0 + report.flips[1].allocated_capital.0;
    assert!(taken > 0.0 && taken <= active_capital(&config).0);
}

#[test]
fn depth_looks_at_ten_levels() {
    let empty: Vec<OrderBookLevel<Coins>> = Vec::new();
    let none = depth_metrics(&empty);
    assert_eq!((none.top_value, none.depth_5_value, none.avg_value), (
        Coins(0.0),
        Coins(0.0),
        Coins(0.0)
    ));
    let mut levels = vec![level(0, 5.0, 1), level(10, -1.0, 1)];
    for i in 1..=9u64 {
        levels.push(level(i, 2.0, 1));
    }
    let depth = depth_metrics(&levels);
    assert_eq!(depth.top_value, Coins(2.0));
    assert_eq!(depth.depth_5_value, Coins(30.0));
    // The eleventh level is not looked at.
    assert_eq!(depth.avg_value, Coins(72.0 / 8.0));
}

#[test]
fn practical_scores_are_exact() {
    let fast = practical_score(&PracticalItemMetrics {
        expected_net_profit_after_tax: Coins(150_000.0),
        expected_cycle_minutes: Coins(5.0),
        buy_volume: 25_000,
        sell_volume: 25_000,
        moving_week: 1_000_000,
        order_count: 40,
        volume_value_hour: Coins(50_000_000.0),
        avg_sell_fill_seconds: Coins(300.0),
        successful_flips: 3,
        realized_profit_last_10m: 150_000,
        ..Default::default()
    });
    assert_eq!(fast.score, Coins(56953.125));
    assert_eq!(fast.sell_through_score, Coins(1.5));
    assert_eq!(fast.capital_efficiency_score, Coins(1.25));
    let troubled = practical_score(&PracticalItemMetrics {
        expected_net_profit_after_tax: Coins(1000.0),
        buy_volume: 100,
        sell_volume: 200,
        moving_week: 1000,
        order_count: 4,
        volume_value_hour: Coins(1_000_000.0),
        avg_buy_fill_seconds: Coins(120.0),
        reprice_count: 2,
        cancel_count: 1,
        max_cost_lot_age_seconds: 1801,
        current_cost_lot_value: Coins(1_000_000.0),
        realized_profit_last_30m: 5,
        failed_flips: 1,
        failed_search_count: 1,
        cannot_afford_count: 1,
        unknown_cost_basis_count: 1,
        negative_profit_block_count: 1,
        successful_flips: 2,
        current_open_buy_capital: Coins(10.0),
        current_open_sell_value: Coins(20.0),
        ..Default::default()
    });
    assert_eq!(troubled.score, Coins(0.15745949074074075));
    assert_eq!(troubled.sell_through_score, Coins(0.18958333333333335));
    assert_eq!(troubled.buy_fill_score, Coins(0.8666666666666667));
    assert_eq!(troubled.liquidity_score, Coins(0.05));
    assert_eq!(troubled.reliability_score, Coins(0.3333333333333333));
    assert_eq!(troubled.recent_success_score, Coins(1.15));
    assert_eq!(troubled.expected_cycle_minutes, Coins(1.0));
}

#[test]
fn position_limits_name_each_reason() {
    let c = test_config();
    let decide = |ib: f64, il: f64, is: f64, tb: f64, tl: f64, ts: f64| {
        evaluate_position_limits(
            Coins(ib),
            Coins(il),
            Coins(is),
            Coins(tb),
            Coins(tl),
            Coins(ts),
            &c,
        )
    };
    assert_eq!(decide(0.0, 0.0, 0.0, 0.0, 0.0, 0.0), CandidateDecision::Accept);
    assert_eq!(
        decide(0.0, 0.0, 0.0, 0.0, 10_500_001.0, 0.0),
        CandidateDecision::Reject("TOO_MUCH_OPEN_COST_BASIS")
    );
    assert_eq!(
        decide(0.0, 0.0, 0.0, 10_500_001.0, 0.0, 0.0),
        CandidateDecision::Reject("TOO_MUCH_OPEN_CAPITAL")
    );
    assert_eq!(
        decide(0.0, 0.0, 0.0, 10_000_000.0, 10_000_000.0, 4_000_000.0),
        CandidateDecision::Reject("POSITION_LIMIT")
    );
    assert_eq!(
        decide(0.0, 1.0, 0.0, 0.0, 1.0, 0.0),
        CandidateDecision::Reject("COST_LOTS_ALREADY_OPEN")
    );
    assert_eq!(
        decide(0.0, 0.0, 1.0, 0.0, 0.0, 1.0),
        CandidateDecision::Reject("COST_LOTS_ALREADY_OPEN")
    );
}

#[test]
fn reprice_rules_name_each_reason() {
    let mut c = test_config();
    let buy = |n: u64, old: f64, new: f64, lots: bool, c: &LocalBazaarScanConfig<Coins>| {
        should_reprice(300, Some(400), n, Coins(old), Coins(new), lots, c).reason
    };
    assert_eq!(buy(3, 0.0, 1e6, false, &c), Some("TOO_MANY_REPRICES"));
    assert_eq!(buy(0, 100_000.0, 200_000.0, true, &c), Some("COST_LOTS_ALREADY_OPEN"));
    c.min_reprice_profit_improvement = Coins(-1e9);
    assert_eq!(buy(0, 100_000.0, 69_999.0, false, &c), Some("PROFIT_EROSION"));
    let c = test_config();
    let sell = |price: f64, cost: f64, amount: u64| {
        should_reprice_sell(
            300,
            None,
            0,
            Coins(1_200_000.0),
            Coins(price),
            Coins(cost),
            amount,
            &c,
        )
        .reason
    };
    assert_eq!(sell(1_100_000.0, 2_000_000.0, 0), Some("UNKNOWN_COST_BASIS"));
    assert_eq!(sell(1_100_000.0, 0.0, 2), Some("UNKNOWN_COST_BASIS"));
    assert_eq!(sell(1_100_000.0, f64::NAN, 2), Some("UNKNOWN_COST_BASIS"));
    assert_eq!(sell(0.0, 2_000_000.0, 2), Some("INVALID_SELL_PRICE"));
    assert_eq!(sell(f64::INFINITY, 2_000_000.0, 2), Some("INVALID_SELL_PRICE"));
}

#[test]
fn risk_levels_and_recommendations() {
    let spike = vec!["price_or_spread_spike".to_string()];
    let none: Vec<String> = Vec::new();
    let two = vec!["a".to_string(), "b".to_string()];
    assert_eq!(risk_level_for(Coins(1.0), &spike, Coins(1.0)), RiskLevel::Extreme);
    assert_eq!(risk_level_for(Coins(1.0), &spike, Coins(2_000_000.0)), RiskLevel::Low);
    assert_eq!(risk_level_for(Coins(0.17), &none, Coins(1e9)), RiskLevel::High);
    assert_eq!(risk_level_for(Coins(0.37), &none, Coins(1e9)), RiskLevel::Medium);
    assert_eq!(risk_level_for(Coins(0.9), &two, Coins(1e9)), RiskLevel::Medium);
    let advise = |roi: f64, volume: f64, level: RiskLevel| {
        recommendation_for(Coins(roi), Coins(volume), level, Coins(2.0), Coins(10_000_000.0))
    };
    assert_eq!(advise(3.0, 1e9, RiskLevel::Extreme), Recommendation::PossibleManipulation);
    assert_eq!(advise(3.0, 1e6, RiskLevel::High), Recommendation::Risky);
    assert_eq!(advise(3.0, 999_999.0, RiskLevel::Low), Recommendation::DeadItem);
    assert_eq!(advise(2.0, 1e7, RiskLevel::High), Recommendation::StrongCandidate);
    assert_eq!(advise(1.0, 2e7, RiskLevel::Low), Recommendation::HighVolumeLowMargin);
    assert_eq!(advise(4.0, 5e6, RiskLevel::Low), Recommendation::HighMarginLowVolume);
    assert_eq!(advise(3.0, 5e6, RiskLevel::Low), Recommendation::GoodButLimitCapital);
}

#[test]
fn gemstone_tags_spell_their_names() {
    let tiers = ["FINE", "FLAWLESS", "PERFECT", "ROUGH", "FLAWED"];
    let gems = [
        "AQUAMARINE", "CITRINE", "ONYX", "PERIDOT", "RUBY", "SAPPHIRE", "TOPAZ", "JASPER",
        "AMETHYST", "OPAL",
    ];
    for tier in tiers {
        for gem in gems {
            let tag = format!("{}_{}_GEM", tier, gem);
            let name = format!("{} {} Gemstone", title_case_tag(tier), title_case_tag(gem));
            assert_eq!(item_tag_to_name(&tag), name);
        }
    }
    assert_eq!(item_tag_to_name("PERFECT_JASPER_GEM"), "Perfect Jasper Gemstone");
    assert_eq!(gemstone_tag_to_name("SHINY_RUBY_GEM"), None);
    assert_eq!(gemstone_tag_to_name("FINE_RUBY"), None);
    assert_eq!(gemstone_tag_to_name("FINE_RUBY_GEMS"), None);
    assert_eq!(item_tag_to_name("WATER_LILY"), "Lily Pad");
    assert_eq!(item_tag_to_name("RAW_FISH"), "Raw Cod");
    assert_eq!(item_tag_to_name("SHARD_COD"), "Cod Shard");
    assert_eq!(item_tag_to_name("SHARD_VORACIOUS_SPIDER"), "Voracious Spider Shard");
    assert_eq!(title_case_tag("__TWO__words_"), "Two Words");
}

#[test]
fn reasons_are_tallied() {
    let tally = tally_reasons(&vec![
        RejectReason::LowVolume,
        RejectReason::CapitalLimit,
        RejectReason::LowVolume,
    ]);
    assert_eq!(tally.len(), 2);
    assert_eq!(tally.get("LOW_VOLUME"), Some(&2));
    assert_eq!(tally.get("CAPITAL_LIMIT"), Some(&1));
    assert_eq!(tally.get("INVALID_PRICE"), None);
}

#[test]
fn no_flip_stands_behind_one_that_it_beats() {
    let mut flips = Vec::new();
    for i in 0..40u32 {
        let n = (i * 17 % 40) as f64;
        flips.push(flip("x", (n / 9.0).floor(), (n / 4.0).floor() % 3.0, n % 5.0, 0.0));
    }
    let ranked = rank_flips(&flips);
    assert_eq!(ranked.len(), 40);
    let figures: Vec<(f64, f64, f64)> = ranked
        .iter()
        .map(|f| {
            (
                f.risk_adjusted_expected_profit_per_hour.0,
                f.volume_value_hour.0,
                f.roi_after_tax.0,
            )
        })
        .collect();
    for i in 0..figures.len() {
        for j in i..figures.len() {
            assert!(figures[i] >= figures[j]);
        }
    }
}
