//! What the bot does next: filled orders first, then the sell backlog, then
//! stale orders, and new buys only when nothing else is open.

use vstd::prelude::*;
use vstd::string::*;

use crate::number::Number;

verus! {

#[derive(Debug, Clone, Copy, PartialEq, Eq)]
pub enum BazaarNextAction {
    RecoverGui,
    ClaimFilledSells,
    ClaimFilledBuys,
    PlaceMissingSellOrders,
    HandleStaleSells,
    HandleStaleBuys,
    RepriceUsefulOrder,
    PlaceNewBuy,
    Idle,
}

impl BazaarNextAction {
    /// The name of the action.
    pub open spec fn name(self) -> Seq<char> {
        match self {
            BazaarNextAction::RecoverGui => "RECOVER_GUI"@,
            BazaarNextAction::ClaimFilledSells => "CLAIM_FILLED_SELLS"@,
            BazaarNextAction::ClaimFilledBuys => "CLAIM_FILLED_BUYS"@,
            BazaarNextAction::PlaceMissingSellOrders => "PLACE_MISSING_SELL_ORDERS"@,
            BazaarNextAction::HandleStaleSells => "HANDLE_STALE_SELLS"@,
            BazaarNextAction::HandleStaleBuys => "HANDLE_STALE_BUYS"@,
            BazaarNextAction::RepriceUsefulOrder => "REPRICE_USEFUL_ORDER"@,
            BazaarNextAction::PlaceNewBuy => "PLACE_NEW_BUY"@,
            BazaarNextAction::Idle => "IDLE"@,
        }
    }

    pub fn as_str(self) -> (r: &'static str)
        ensures
            r@ == self.name(),
    {
        match self {
            BazaarNextAction::RecoverGui => "RECOVER_GUI",
            BazaarNextAction::ClaimFilledSells => "CLAIM_FILLED_SELLS",
            BazaarNextAction::ClaimFilledBuys => "CLAIM_FILLED_BUYS",
            BazaarNextAction::PlaceMissingSellOrders => "PLACE_MISSING_SELL_ORDERS",
            BazaarNextAction::HandleStaleSells => "HANDLE_STALE_SELLS",
            BazaarNextAction::HandleStaleBuys => "HANDLE_STALE_BUYS",
            BazaarNextAction::RepriceUsefulOrder => "REPRICE_USEFUL_ORDER",
            BazaarNextAction::PlaceNewBuy => "PLACE_NEW_BUY",
            BazaarNextAction::Idle => "IDLE",
        }
    }
}

#[derive(Debug, Clone)]
pub struct BazaarLifecycleConfig {
    pub max_stale_buy_orders: usize,
    pub pause_new_buys_when_stale_buy_pressure: bool,
    pub cancel_stale_buys_when_sell_queue_pending: bool,
}

impl Default for BazaarLifecycleConfig {
    fn default() -> (r: Self)
        ensures
            r.max_stale_buy_orders == 2,
            r.pause_new_buys_when_stale_buy_pressure,
            r.cancel_stale_buys_when_sell_queue_pending,
    {
        BazaarLifecycleConfig {
            max_stale_buy_orders: 2,
            pause_new_buys_when_stale_buy_pressure: true,
            cancel_stale_buys_when_sell_queue_pending: true,
        }
    }
}

#[derive(Debug, Clone)]
pub struct BazaarLifecycleState<N> {
    pub bot_can_accept_commands: bool,
    pub command_queue_busy: bool,
    pub startup_in_progress: bool,
    pub daily_sell_limit: bool,
    pub filled_sell_orders: usize,
    pub filled_buy_orders: usize,
    pub items_waiting_for_sell: usize,
    pub remaining_cost_lot_value: N,
    pub active_sell_orders: usize,
    pub duplicate_active_sell_items: usize,
    pub stale_sell_orders: usize,
    pub stale_buy_orders: usize,
    pub useful_reprice_available: bool,
    pub sell_backlog_age_seconds: u64,
}

#[derive(Debug, Clone)]
pub struct BazaarLifecycleDecision {
    pub action: BazaarNextAction,
    pub block_new_buys: bool,
    pub flow_stall: bool,
    pub reason: String,
}

impl<N: Number> BazaarLifecycleState<N> {
    /// Bought items wait to be listed: some were counted, or bought lots are
    /// worth something and no sell order is active.
    pub open spec fn sell_backlog(self) -> bool {
        self.items_waiting_for_sell > 0 || (N::whole(0).spec_below(self.remaining_cost_lot_value)
            && self.active_sell_orders == 0)
    }

    /// The backlog has lasted two minutes with no sell order active.
    pub open spec fn stalled(self) -> bool {
        self.sell_backlog() && self.active_sell_orders == 0 && self.sell_backlog_age_seconds >= 120
    }

    /// Stale buy orders are to be handled under `config`.
    pub open spec fn stale_buy_pressure(self, config: BazaarLifecycleConfig) -> bool {
        self.stale_buy_orders > 0 && (self.stale_buy_orders > config.max_stale_buy_orders || (
        config.cancel_stale_buys_when_sell_queue_pending && self.items_waiting_for_sell > 0)
            || config.pause_new_buys_when_stale_buy_pressure)
    }
}

/// The first rule that applies decides.
pub open spec fn next_action<N: Number>(
    state: BazaarLifecycleState<N>,
    config: BazaarLifecycleConfig,
) -> (BazaarNextAction, Seq<char>) {
    if state.startup_in_progress || !state.bot_can_accept_commands {
        (BazaarNextAction::RecoverGui, "BOT_NOT_READY_OR_GUI_BUSY"@)
    } else if state.command_queue_busy {
        (BazaarNextAction::Idle, "COMMAND_QUEUE_BUSY"@)
    } else if state.filled_sell_orders > 0 {
        (BazaarNextAction::ClaimFilledSells, "FILLED_SELL_ORDERS_WAITING"@)
    } else if state.filled_buy_orders > 0 {
        (BazaarNextAction::ClaimFilledBuys, "FILLED_BUY_ORDERS_WAITING"@)
    } else if state.sell_backlog() {
        (BazaarNextAction::PlaceMissingSellOrders, "COST_LOTS_WITHOUT_ACTIVE_SELL"@)
    } else if state.duplicate_active_sell_items > 0 {
        (BazaarNextAction::HandleStaleSells, "DUPLICATE_ACTIVE_SELL_ORDERS"@)
    } else if state.stale_sell_orders > 0 {
        (BazaarNextAction::HandleStaleSells, "STALE_SELL_ORDERS"@)
    } else if state.stale_buy_pressure(config) {
        (BazaarNextAction::HandleStaleBuys, "STALE_BUY_PRESSURE"@)
    } else if state.useful_reprice_available {
        (BazaarNextAction::RepriceUsefulOrder, "USEFUL_REPRICE_AVAILABLE"@)
    } else if state.daily_sell_limit {
        (BazaarNextAction::Idle, "DAILY_SELL_LIMIT"@)
    } else {
        (BazaarNextAction::PlaceNewBuy, "READY_FOR_NEW_BUY"@)
    }
}

/// New buys are blocked unless a new buy is the action, or the queue is busy
/// and nothing waits to be sold.
pub open spec fn blocks_new_buys<N: Number>(
    state: BazaarLifecycleState<N>,
    config: BazaarLifecycleConfig,
) -> bool {
    let (action, reason) = next_action(state, config);
    if state.command_queue_busy && action == BazaarNextAction::Idle {
        state.sell_backlog()
    } else {
        action != BazaarNextAction::PlaceNewBuy
    }
}

/// The decision for `state` under `config`.
pub fn determine_next_bazaar_action<N: Number>(
    state: &BazaarLifecycleState<N>,
    config: &BazaarLifecycleConfig,
) -> (r: BazaarLifecycleDecision)
    ensures
        r.action == next_action(*state, *config).0,
        r.reason@ == next_action(*state, *config).1,
        r.block_new_buys == blocks_new_buys(*state, *config),
        r.flow_stall == state.stalled(),
{
    let sell_backlog = state.items_waiting_for_sell > 0 || (N::from_u64(0).below(
        state.remaining_cost_lot_value,
    ) && state.active_sell_orders == 0);
    let flow_stall = sell_backlog && state.active_sell_orders == 0
        && state.sell_backlog_age_seconds >= 120;

    if state.startup_in_progress || !state.bot_can_accept_commands {
        return decision(
            BazaarNextAction::RecoverGui,
            true,
            flow_stall,
            "BOT_NOT_READY_OR_GUI_BUSY",
        );
    }
    if state.command_queue_busy {
        return decision(BazaarNextAction::Idle, sell_backlog, flow_stall, "COMMAND_QUEUE_BUSY");
    }
    if state.filled_sell_orders > 0 {
        return decision(
            BazaarNextAction::ClaimFilledSells,
            true,
            flow_stall,
            "FILLED_SELL_ORDERS_WAITING",
        );
    }
    if state.filled_buy_orders > 0 {
        return decision(
            BazaarNextAction::ClaimFilledBuys,
            true,
            flow_stall,
            "FILLED_BUY_ORDERS_WAITING",
        );
    }
    if sell_backlog {
        return decision(
            BazaarNextAction::PlaceMissingSellOrders,
            true,
            flow_stall,
            "COST_LOTS_WITHOUT_ACTIVE_SELL",
        );
    }
    if state.duplicate_active_sell_items > 0 {
        return decision(
            BazaarNextAction::HandleStaleSells,
            true,
            flow_stall,
            "DUPLICATE_ACTIVE_SELL_ORDERS",
        );
    }
    if state.stale_sell_orders > 0 {
        return decision(BazaarNextAction::HandleStaleSells, true, flow_stall, "STALE_SELL_ORDERS");
    }
    if state.stale_buy_orders > 0 && (state.stale_buy_orders > config.max_stale_buy_orders || (
    config.cancel_stale_buys_when_sell_queue_pending && state.items_waiting_for_sell > 0)
        || config.pause_new_buys_when_stale_buy_pressure) {
        return decision(BazaarNextAction::HandleStaleBuys, true, flow_stall, "STALE_BUY_PRESSURE");
    }
    if state.useful_reprice_available {
        return decision(
            BazaarNextAction::RepriceUsefulOrder,
            true,
            flow_stall,
            "USEFUL_REPRICE_AVAILABLE",
        );
    }
    if state.daily_sell_limit {
        return decision(BazaarNextAction::Idle, true, flow_stall, "DAILY_SELL_LIMIT");
    }
    decision(BazaarNextAction::PlaceNewBuy, false, false, "READY_FOR_NEW_BUY")
}

fn decision(
    action: BazaarNextAction,
    block_new_buys: bool,
    flow_stall: bool,
    reason: &str,
) -> (r: BazaarLifecycleDecision)
    ensures
        r.action == action,
        r.block_new_buys == block_new_buys,
        r.flow_stall == flow_stall,
        r.reason@ == reason@,
{
    BazaarLifecycleDecision { action, block_new_buys, flow_stall, reason: reason.to_string() }
}

/// A new buy is placed exactly when the bot is ready and nothing else is open:
/// no filled order, no sell backlog, no duplicate or stale sells, no stale buys
/// to handle, nothing to reprice, and sells are not limited for the day.
pub proof fn new_buys_come_last<N: Number>(
    state: BazaarLifecycleState<N>,
    config: BazaarLifecycleConfig,
)
    ensures
        next_action(state, config).0 == BazaarNextAction::PlaceNewBuy <==> {
            &&& state.bot_can_accept_commands
            &&& !state.startup_in_progress
            &&& !state.command_queue_busy
            &&& state.filled_sell_orders == 0
            &&& state.filled_buy_orders == 0
            &&& !state.sell_backlog()
            &&& state.duplicate_active_sell_items == 0
            &&& state.stale_sell_orders == 0
            &&& !state.stale_buy_pressure(config)
            &&& !state.useful_reprice_available
            &&& !state.daily_sell_limit
        },
{
}

/// New buys are blocked as long as bought items wait to be sold, and a decision
/// for a new buy never blocks it.
pub proof fn backlog_blocks_new_buys<N: Number>(
    state: BazaarLifecycleState<N>,
    config: BazaarLifecycleConfig,
)
    ensures
        state.sell_backlog() ==> blocks_new_buys(state, config),
        state.stalled() ==> blocks_new_buys(state, config),
        next_action(state, config).0 == BazaarNextAction::PlaceNewBuy ==> !blocks_new_buys(
            state,
            config,
        ),
{
}

/// Once the bot is ready, filled sells are claimed before anything else, filled
/// buys before anything but those, and the backlog is listed before anything
/// but claims.
pub proof fn claims_come_first<N: Number>(
    state: BazaarLifecycleState<N>,
    config: BazaarLifecycleConfig,
)
    requires
        state.bot_can_accept_commands,
        !state.startup_in_progress,
        !state.command_queue_busy,
    ensures
        state.filled_sell_orders > 0 ==> next_action(state, config).0
            == BazaarNextAction::ClaimFilledSells,
        state.filled_sell_orders == 0 && state.filled_buy_orders > 0 ==> next_action(
            state,
            config,
        ).0 == BazaarNextAction::ClaimFilledBuys,
        state.filled_sell_orders == 0 && state.filled_buy_orders == 0 && state.sell_backlog()
            ==> next_action(state, config).0 == BazaarNextAction::PlaceMissingSellOrders,
{
}

/// A bot that is not ready recovers first, whatever else is open, and buys
/// nothing new.
pub proof fn recovery_comes_before_all<N: Number>(
    state: BazaarLifecycleState<N>,
    config: BazaarLifecycleConfig,
)
    ensures
        next_action(state, config).0 == BazaarNextAction::RecoverGui
            <==> state.startup_in_progress || !state.bot_can_accept_commands,
        state.startup_in_progress || !state.bot_can_accept_commands ==> next_action(state, config).1
            == "BOT_NOT_READY_OR_GUI_BUSY"@ && blocks_new_buys(state, config),
{
}

/// While commands are queued a ready bot waits. New buys are then blocked
/// exactly when an item waits to be sold, or bought lots are worth something
/// and no sell order is active.
pub proof fn queued_commands_are_awaited<N: Number>(
    state: BazaarLifecycleState<N>,
    config: BazaarLifecycleConfig,
)
    requires
        state.bot_can_accept_commands,
        !state.startup_in_progress,
        state.command_queue_busy,
    ensures
        next_action(state, config) == (BazaarNextAction::Idle, "COMMAND_QUEUE_BUSY"@),
        state.items_waiting_for_sell > 0 ==> blocks_new_buys(state, config),
        N::whole(0).spec_below(state.remaining_cost_lot_value) && state.active_sell_orders == 0
            ==> blocks_new_buys(state, config),
        state.items_waiting_for_sell == 0 && state.active_sell_orders > 0 ==> !blocks_new_buys(
            state,
            config,
        ),
        state.items_waiting_for_sell == 0 && !N::whole(0).spec_below(state.remaining_cost_lot_value)
            ==> !blocks_new_buys(state, config),
{
}

/// A ready bot with nothing to claim lists what waits to be sold and buys
/// nothing new: items that wait, however many sell orders are active, and lots
/// that are worth something while no sell order is active.
pub proof fn waiting_items_are_listed<N: Number>(
    state: BazaarLifecycleState<N>,
    config: BazaarLifecycleConfig,
)
    requires
        state.bot_can_accept_commands,
        !state.startup_in_progress,
        !state.command_queue_busy,
        state.filled_sell_orders == 0,
        state.filled_buy_orders == 0,
    ensures
        state.items_waiting_for_sell > 0 || (state.active_sell_orders == 0 && N::whole(
            0,
        ).spec_below(state.remaining_cost_lot_value)) <==> next_action(state, config).0
            == BazaarNextAction::PlaceMissingSellOrders,
        next_action(state, config).0 == BazaarNextAction::PlaceMissingSellOrders ==> next_action(
            state,
            config,
        ).1 == "COST_LOTS_WITHOUT_ACTIVE_SELL"@ && blocks_new_buys(state, config),
{
}

/// A new buy is decided only where no item waits to be sold, and the remaining
/// lots are worth nothing or a sell order is active.
pub proof fn new_buys_wait_for_sells<N: Number>(
    state: BazaarLifecycleState<N>,
    config: BazaarLifecycleConfig,
)
    requires
        next_action(state, config).0 == BazaarNextAction::PlaceNewBuy,
    ensures
        state.items_waiting_for_sell == 0,
        !N::whole(0).spec_below(state.remaining_cost_lot_value) || state.active_sell_orders > 0,
        state.filled_sell_orders == 0,
        state.filled_buy_orders == 0,
        state.duplicate_active_sell_items == 0,
        state.stale_sell_orders == 0,
        state.stale_buy_orders == 0 || (state.stale_buy_orders <= config.max_stale_buy_orders
            && !config.pause_new_buys_when_stale_buy_pressure),
        !state.useful_reprice_available,
        !state.daily_sell_limit,
        state.bot_can_accept_commands,
        !state.startup_in_progress,
        !state.command_queue_busy,
        next_action(state, config).1 == "READY_FOR_NEW_BUY"@,
        !blocks_new_buys(state, config),
{
}

/// A ready bot with nothing else to do buys.
pub proof fn free_bots_buy<N: Number>(
    state: BazaarLifecycleState<N>,
    config: BazaarLifecycleConfig,
)
    requires
        state.bot_can_accept_commands,
        !state.startup_in_progress,
        !state.command_queue_busy,
        state.filled_sell_orders == 0,
        state.filled_buy_orders == 0,
        state.items_waiting_for_sell == 0,
        state.active_sell_orders > 0 || !N::whole(0).spec_below(state.remaining_cost_lot_value),
        state.duplicate_active_sell_items == 0,
        state.stale_sell_orders == 0,
        state.stale_buy_orders == 0 || (!config.pause_new_buys_when_stale_buy_pressure
            && state.stale_buy_orders <= config.max_stale_buy_orders),
        !state.useful_reprice_available,
        !state.daily_sell_limit,
    ensures
        next_action(state, config).0 == BazaarNextAction::PlaceNewBuy,
        !blocks_new_buys(state, config),
{
}

/// What comes between the sells to list and a new buy: several sell orders of
/// one item, then stale sells, then stale buys, then a useful new price, then
/// the daily limit. Each says so and blocks new buys.
pub proof fn open_work_is_done_in_turn<N: Number>(
    state: BazaarLifecycleState<N>,
    config: BazaarLifecycleConfig,
)
    requires
        state.bot_can_accept_commands,
        !state.startup_in_progress,
        !state.command_queue_busy,
        state.filled_sell_orders == 0,
        state.filled_buy_orders == 0,
        state.items_waiting_for_sell == 0,
        state.active_sell_orders > 0 || !N::whole(0).spec_below(state.remaining_cost_lot_value),
    ensures
        ({
            let (action, reason) = next_action(state, config);
            let too_many = state.stale_buy_orders > config.max_stale_buy_orders || (
            state.stale_buy_orders > 0 && config.pause_new_buys_when_stale_buy_pressure);
            if state.duplicate_active_sell_items > 0 || state.stale_sell_orders > 0 {
                &&& action == BazaarNextAction::HandleStaleSells
                &&& reason == if state.duplicate_active_sell_items > 0 {
                    "DUPLICATE_ACTIVE_SELL_ORDERS"@
                } else {
                    "STALE_SELL_ORDERS"@
                }
                &&& blocks_new_buys(state, config)
            } else if too_many {
                &&& action == BazaarNextAction::HandleStaleBuys
                &&& reason == "STALE_BUY_PRESSURE"@
                &&& blocks_new_buys(state, config)
            } else if state.useful_reprice_available {
                &&& action == BazaarNextAction::RepriceUsefulOrder
                &&& reason == "USEFUL_REPRICE_AVAILABLE"@
                &&& blocks_new_buys(state, config)
            } else if state.daily_sell_limit {
                &&& action == BazaarNextAction::Idle
                &&& reason == "DAILY_SELL_LIMIT"@
                &&& blocks_new_buys(state, config)
            } else {
                action == BazaarNextAction::PlaceNewBuy
            }
        }),
{
}

/// Claims say what they claim and block new buys.
pub proof fn claims_block_new_buys<N: Number>(
    state: BazaarLifecycleState<N>,
    config: BazaarLifecycleConfig,
)
    requires
        state.bot_can_accept_commands,
        !state.startup_in_progress,
        !state.command_queue_busy,
        state.filled_sell_orders > 0 || state.filled_buy_orders > 0,
    ensures
        next_action(state, config) == if state.filled_sell_orders > 0 {
            (BazaarNextAction::ClaimFilledSells, "FILLED_SELL_ORDERS_WAITING"@)
        } else {
            (BazaarNextAction::ClaimFilledBuys, "FILLED_BUY_ORDERS_WAITING"@)
        },
        blocks_new_buys(state, config),
{
}

/// The flow has stalled exactly when something waits to be sold, no sell order
/// is active and this has lasted for two minutes. A stall passes with the first
/// sell order, and grows no shorter with time.
pub proof fn stalls_last_two_minutes<N: Number>(
    state: BazaarLifecycleState<N>,
    later: BazaarLifecycleState<N>,
)
    ensures
        state.active_sell_orders > 0 ==> !state.stalled(),
        state.sell_backlog_age_seconds < 120 ==> !state.stalled(),
        state.items_waiting_for_sell == 0 && !N::whole(0).spec_below(state.remaining_cost_lot_value)
            ==> !state.stalled(),
        state.active_sell_orders == 0 && state.sell_backlog_age_seconds >= 120 && (
        state.items_waiting_for_sell > 0 || N::whole(0).spec_below(state.remaining_cost_lot_value))
            ==> state.stalled(),
        state.stalled() && later == (BazaarLifecycleState {
            sell_backlog_age_seconds: later.sell_backlog_age_seconds,
            ..state
        }) && later.sell_backlog_age_seconds >= state.sell_backlog_age_seconds ==> later.stalled(),
{
}

/// More to sell never frees a new buy: where new buys are blocked they stay
/// blocked with more filled orders, more items that wait and more stale orders.
pub proof fn more_work_frees_no_buys<N: Number>(
    state: BazaarLifecycleState<N>,
    busier: BazaarLifecycleState<N>,
    config: BazaarLifecycleConfig,
)
    requires
        busier == (BazaarLifecycleState {
            filled_sell_orders: busier.filled_sell_orders,
            filled_buy_orders: busier.filled_buy_orders,
            items_waiting_for_sell: busier.items_waiting_for_sell,
            duplicate_active_sell_items: busier.duplicate_active_sell_items,
            stale_sell_orders: busier.stale_sell_orders,
            stale_buy_orders: busier.stale_buy_orders,
            ..state
        }),
        busier.filled_sell_orders >= state.filled_sell_orders,
        busier.filled_buy_orders >= state.filled_buy_orders,
        busier.items_waiting_for_sell >= state.items_waiting_for_sell,
        busier.duplicate_active_sell_items >= state.duplicate_active_sell_items,
        busier.stale_sell_orders >= state.stale_sell_orders,
        busier.stale_buy_orders >= state.stale_buy_orders,
    ensures
        blocks_new_buys(state, config) ==> blocks_new_buys(busier, config),
{
}

} // verus!
