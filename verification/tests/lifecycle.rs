use purse_pilot::bazaar_lifecycle::{
    determine_next_bazaar_action, BazaarLifecycleConfig, BazaarLifecycleState, BazaarNextAction,
};
use purse_pilot::number::Number;

/// Coins as `f64`.
#[derive(Debug, Clone, Copy, PartialEq, PartialOrd)]
struct Coins(f64);

impl Number for Coins {
    fn whole(n: u64) -> Self {
        Self::from_u64(n)
    }
    fn signed(n: i64) -> Self {
        Self::from_i64(n)
    }
    fn spec_plus(self, other: Self) -> Self {
        self.plus(other)
    }
    fn spec_minus(self, other: Self) -> Self {
        self.minus(other)
    }
    fn spec_times(self, other: Self) -> Self {
        self.times(other)
    }
    fn spec_over(self, other: Self) -> Self {
        self.over(other)
    }
    fn spec_magnitude(self) -> Self {
        self.magnitude()
    }
    fn spec_root(self) -> Self {
        self.root()
    }
    fn spec_larger(self, other: Self) -> Self {
        self.larger(other)
    }
    fn spec_smaller(self, other: Self) -> Self {
        self.smaller(other)
    }
    fn spec_below(self, other: Self) -> bool {
        self.below(other)
    }
    fn spec_at_most(self, other: Self) -> bool {
        self.at_most(other)
    }
    fn spec_is_finite(self) -> bool {
        self.is_finite()
    }
    fn spec_rounded(self) -> i64 {
        self.rounded()
    }
    fn spec_whole_part(self) -> u64 {
        self.whole_part()
    }
    fn below_is_asymmetric(_a: Self, _b: Self) {}
    fn below_is_cotransitive(_a: Self, _b: Self, _c: Self) {}
    fn whole_over_itself(_n: u64) {}
    fn times_one(_a: Self) {}
    fn from_u64(n: u64) -> Self {
        Coins(n as f64)
    }
    fn from_i64(n: i64) -> Self {
        Coins(n as f64)
    }
    fn plus(self, other: Self) -> Self {
        Coins(self.0 + other.0)
    }
    fn minus(self, other: Self) -> Self {
        Coins(self.0 - other.0)
    }
    fn times(self, other: Self) -> Self {
        Coins(self.0 * other.0)
    }
    fn over(self, other: Self) -> Self {
        Coins(self.0 / other.0)
    }
    fn magnitude(self) -> Self {
        Coins(self.0.abs())
    }
    fn root(self) -> Self {
        Coins(self.0.sqrt())
    }
    fn larger(self, other: Self) -> Self {
        Coins(self.0.max(other.0))
    }
    fn smaller(self, other: Self) -> Self {
        Coins(self.0.min(other.0))
    }
    fn below(self, other: Self) -> bool {
        self.0 < other.0
    }
    fn at_most(self, other: Self) -> bool {
        self.0 <= other.0
    }
    fn is_finite(self) -> bool {
        self.0.is_finite()
    }
    fn rounded(self) -> i64 {
        self.0.round() as i64
    }
    fn whole_part(self) -> u64 {
        self.0.floor() as u64
    }
}

fn base_state() -> BazaarLifecycleState<Coins> {
    BazaarLifecycleState {
        bot_can_accept_commands: true,
        command_queue_busy: false,
        startup_in_progress: false,
        daily_sell_limit: false,
        filled_sell_orders: 0,
        filled_buy_orders: 0,
        items_waiting_for_sell: 0,
        remaining_cost_lot_value: Coins(0.0),
        active_sell_orders: 0,
        duplicate_active_sell_items: 0,
        stale_sell_orders: 0,
        stale_buy_orders: 0,
        useful_reprice_available: false,
        sell_backlog_age_seconds: 0,
    }
}

#[test]
fn sell_backlog_blocks_new_buys_and_places_missing_sells() {
    let mut state = base_state();
    state.items_waiting_for_sell = 3;
    state.remaining_cost_lot_value = Coins(3_700_000.0);
    let decision = determine_next_bazaar_action(&state, &BazaarLifecycleConfig::default());
    assert_eq!(decision.action, BazaarNextAction::PlaceMissingSellOrders);
    assert!(decision.block_new_buys);
}

#[test]
fn filled_sells_have_priority_over_buys_and_backlog() {
    let mut state = base_state();
    state.filled_sell_orders = 1;
    state.filled_buy_orders = 2;
    state.items_waiting_for_sell = 1;
    let decision = determine_next_bazaar_action(&state, &BazaarLifecycleConfig::default());
    assert_eq!(decision.action, BazaarNextAction::ClaimFilledSells);
}

#[test]
fn stale_buy_pressure_blocks_new_buys() {
    let mut state = base_state();
    state.stale_buy_orders = 4;
    let decision = determine_next_bazaar_action(&state, &BazaarLifecycleConfig::default());
    assert_eq!(decision.action, BazaarNextAction::HandleStaleBuys);
    assert!(decision.block_new_buys);
}

#[test]
fn duplicate_active_sells_block_new_buys_for_consolidation() {
    let mut state = base_state();
    state.duplicate_active_sell_items = 1;
    let decision = determine_next_bazaar_action(&state, &BazaarLifecycleConfig::default());
    assert_eq!(decision.action, BazaarNextAction::HandleStaleSells);
    assert_eq!(decision.reason, "DUPLICATE_ACTIVE_SELL_ORDERS");
    assert!(decision.block_new_buys);
}

#[test]
fn prolonged_missing_sell_state_is_a_flow_stall() {
    let mut state = base_state();
    state.remaining_cost_lot_value = Coins(1_000_000.0);
    state.active_sell_orders = 0;
    state.sell_backlog_age_seconds = 121;
    let decision = determine_next_bazaar_action(&state, &BazaarLifecycleConfig::default());
    assert_eq!(decision.action, BazaarNextAction::PlaceMissingSellOrders);
    assert!(decision.flow_stall);
}

#[test]
fn the_first_rule_that_applies_decides() {
    let config = BazaarLifecycleConfig::default();
    let decide = |state: &BazaarLifecycleState<Coins>| {
        let d = determine_next_bazaar_action(state, &config);
        (d.action.as_str(), d.block_new_buys, d.reason)
    };
    let ready = base_state();
    assert_eq!(decide(&ready), ("PLACE_NEW_BUY", false, "READY_FOR_NEW_BUY".to_string()));
    let mut s = base_state();
    s.daily_sell_limit = true;
    assert_eq!(decide(&s), ("IDLE", true, "DAILY_SELL_LIMIT".to_string()));
    s.useful_reprice_available = true;
    assert_eq!(
        decide(&s),
        ("REPRICE_USEFUL_ORDER", true, "USEFUL_REPRICE_AVAILABLE".to_string())
    );
    s.stale_buy_orders = 1;
    assert_eq!(decide(&s), ("HANDLE_STALE_BUYS", true, "STALE_BUY_PRESSURE".to_string()));
    s.stale_sell_orders = 1;
    assert_eq!(decide(&s), ("HANDLE_STALE_SELLS", true, "STALE_SELL_ORDERS".to_string()));
    s.items_waiting_for_sell = 1;
    assert_eq!(
        decide(&s),
        ("PLACE_MISSING_SELL_ORDERS", true, "COST_LOTS_WITHOUT_ACTIVE_SELL".to_string())
    );
    s.filled_buy_orders = 1;
    assert_eq!(decide(&s), ("CLAIM_FILLED_BUYS", true, "FILLED_BUY_ORDERS_WAITING".to_string()));
    s.filled_sell_orders = 1;
    assert_eq!(decide(&s), ("CLAIM_FILLED_SELLS", true, "FILLED_SELL_ORDERS_WAITING".to_string()));
    s.command_queue_busy = true;
    assert_eq!(decide(&s), ("IDLE", true, "COMMAND_QUEUE_BUSY".to_string()));
    s.items_waiting_for_sell = 0;
    assert_eq!(decide(&s), ("IDLE", false, "COMMAND_QUEUE_BUSY".to_string()));
    s.bot_can_accept_commands = false;
    assert_eq!(decide(&s), ("RECOVER_GUI", true, "BOT_NOT_READY_OR_GUI_BUSY".to_string()));
}
