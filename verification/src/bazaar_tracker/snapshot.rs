//! The state of the order book and of the profit accounts at one moment.

use vstd::prelude::*;
use vstd::string::*;

use crate::bazaar_tracker::item_key::{match_key, normalize_for_match};
use crate::bazaar_tracker::lots::{count_units, lots_value, total_amount, value_lots};
use crate::bazaar_tracker::orders::{
    active_for, filter_one_more, ordered_amount, orders_value, stale_on,
};
use crate::bazaar_tracker::performance::larger_of;
use crate::bazaar_tracker::records::{
    option_audit, BazaarProfitAuditSnapshot, BuyCostLot, ItemPerformance, OrderRecord,
    PerformanceRecord, SellAuditRecord,
};
use crate::bazaar_tracker::state::{BazaarOrderTracker, TrackerState};
use crate::listing::{lookup, Entries, Listing};
use crate::number::Number;
use crate::text::{same_text, texts};

verus! {

/// The age from which an order counts as stale in a snapshot.
pub const SNAPSHOT_STALE_SECONDS: u64 = 1200;

/// The contents of a snapshot.
pub struct SnapshotRecord<N> {
    pub realized_profit_total: i64,
    pub unknown_cost_basis_sells: u64,
    pub ignored_legacy_profit_total: i64,
    pub open_buy_capital: N,
    pub open_sell_value: N,
    pub active_buy_orders: nat,
    pub active_sell_orders: nat,
    pub remaining_cost_lots: Entries<Seq<BuyCostLot<N>>>,
    pub remaining_cost_lot_value: N,
    pub estimated_sell_value_after_tax: N,
    pub estimated_unrealized_profit: N,
    pub stale_buy_orders: nat,
    pub stale_sell_orders: nat,
    pub items_waiting_for_sell: Seq<Seq<char>>,
    pub blocked_items_waiting_for_sell: Seq<Seq<char>>,
    pub blocked_cost_lot_value: N,
    pub actionable_cost_lot_value: N,
    pub last_sell_audit_at: Option<u64>,
    pub web_graph_source: Seq<char>,
    pub last_sell_audit: Option<SellAuditRecord<N>>,
    pub item_performance: Entries<PerformanceRecord<N>>,
    pub cleanup_state: Seq<char>,
}

impl<N> View for BazaarProfitAuditSnapshot<N> {
    type V = SnapshotRecord<N>;

    open spec fn view(&self) -> SnapshotRecord<N> {
        SnapshotRecord {
            realized_profit_total: self.current_fifo_realized_profit_total,
            unknown_cost_basis_sells: self.unknown_cost_basis_sell_total_count,
            ignored_legacy_profit_total: self.ignored_legacy_profit_total,
            open_buy_capital: self.open_buy_capital,
            open_sell_value: self.open_sell_value,
            active_buy_orders: self.active_buy_orders as nat,
            active_sell_orders: self.active_sell_orders as nat,
            remaining_cost_lots: self.remaining_cost_lots@,
            remaining_cost_lot_value: self.remaining_cost_lot_value,
            estimated_sell_value_after_tax: self.estimated_sell_value_after_tax,
            estimated_unrealized_profit: self.estimated_unrealized_profit,
            stale_buy_orders: self.stale_buy_orders as nat,
            stale_sell_orders: self.stale_sell_orders as nat,
            items_waiting_for_sell: texts(self.items_waiting_for_sell@),
            blocked_items_waiting_for_sell: texts(self.blocked_items_waiting_for_sell@),
            blocked_cost_lot_value: self.blocked_cost_lot_value,
            actionable_cost_lot_value: self.actionable_cost_lot_value,
            last_sell_audit_at: self.last_sell_audit_at,
            web_graph_source: self.web_graph_source@,
            last_sell_audit: option_audit(self.last_sell_audit),
            item_performance: self.item_performance@,
            cleanup_state: self.cleanup_state@,
        }
    }
}

/// A snapshot of nothing.
pub open spec fn blank_snapshot<N: Number>() -> SnapshotRecord<N> {
    SnapshotRecord {
        realized_profit_total: 0,
        unknown_cost_basis_sells: 0,
        ignored_legacy_profit_total: 0,
        open_buy_capital: N::whole(0),
        open_sell_value: N::whole(0),
        active_buy_orders: 0,
        active_sell_orders: 0,
        remaining_cost_lots: Seq::empty(),
        remaining_cost_lot_value: N::whole(0),
        estimated_sell_value_after_tax: N::whole(0),
        estimated_unrealized_profit: N::whole(0),
        stale_buy_orders: 0,
        stale_sell_orders: 0,
        items_waiting_for_sell: Seq::empty(),
        blocked_items_waiting_for_sell: Seq::empty(),
        blocked_cost_lot_value: N::whole(0),
        actionable_cost_lot_value: N::whole(0),
        last_sell_audit_at: None,
        web_graph_source: Seq::empty(),
        last_sell_audit: None,
        item_performance: Seq::empty(),
        cleanup_state: Seq::empty(),
    }
}

impl<N: Number> Default for BazaarProfitAuditSnapshot<N> {
    fn default() -> (r: Self)
        ensures
            r@ == blank_snapshot::<N>(),
    {
        let r = BazaarProfitAuditSnapshot {
            current_fifo_realized_profit_total: 0,
            unknown_cost_basis_sell_total_count: 0,
            ignored_legacy_profit_total: 0,
            open_buy_capital: N::from_u64(0),
            open_sell_value: N::from_u64(0),
            active_buy_orders: 0,
            active_sell_orders: 0,
            remaining_cost_lots: Listing::new(),
            remaining_cost_lot_value: N::from_u64(0),
            estimated_sell_value_after_tax: N::from_u64(0),
            estimated_unrealized_profit: N::from_u64(0),
            stale_buy_orders: 0,
            stale_sell_orders: 0,
            items_waiting_for_sell: Vec::new(),
            blocked_items_waiting_for_sell: Vec::new(),
            blocked_cost_lot_value: N::from_u64(0),
            actionable_cost_lot_value: N::from_u64(0),
            last_sell_audit_at: None,
            web_graph_source: String::new(),
            last_sell_audit: None,
            item_performance: Listing::new(),
            cleanup_state: String::new(),
        };
        assert(r@.items_waiting_for_sell =~= Seq::empty());
        assert(r@.blocked_items_waiting_for_sell =~= Seq::empty());
        r
    }
}

/// Active orders on one side.
pub open spec fn active_on<N>(is_buy_order: bool) -> spec_fn(OrderRecord<N>) -> bool {
    |o: OrderRecord<N>| o.is_active() && o.is_buy_order == is_buy_order
}

/// What the lots of all listed items cost together.
pub open spec fn entries_value<N: Number>(lots: Entries<Seq<BuyCostLot<N>>>) -> N
    decreases lots.len(),
{
    if lots.len() == 0 {
        N::whole(0)
    } else {
        entries_value(lots.drop_last()).spec_plus(lots_value(lots.last().1))
    }
}

/// The names in a listing.
pub open spec fn names<T>(s: Entries<T>) -> Seq<Seq<char>> {
    s.map_values(|e: (Seq<char>, T)| e.0)
}

/// How long the longest-held lot is held at `now`.
pub open spec fn longest_held<N>(lots: Seq<BuyCostLot<N>>, now: u64) -> u64
    decreases lots.len(),
{
    if lots.len() == 0 {
        0
    } else {
        larger_of(
            longest_held(lots.drop_last(), now),
            now.saturating_sub(lots.last().collected_at),
        )
    }
}

/// Open sells are valued after a tax of 1.25 percent.
pub open spec fn estimated_after_tax<N: Number>(value: N) -> N {
    value.spec_times(N::whole(1).spec_minus(N::whole(125).spec_over(N::whole(10000))))
}

impl<N: Number> PerformanceRecord<N> {
    /// A cooldown that keeps the item from being sold.
    pub open spec fn blocks_selling(self, now: u64) -> bool {
        &&& self.cooldown_until is Some
        &&& self.cooldown_until->0 > now
        &&& self.block_reason is Some
        &&& {
            ||| self.block_reason->0 == "NEGATIVE_EXPECTED_PROFIT"@
            ||| self.block_reason->0 == "PRODUCT_LOOKUP_FAILED"@
            ||| self.block_reason->0 == "COST_LOT_NOT_IN_INVENTORY"@
        }
    }
}

impl<N: Number> TrackerState<N> {
    /// An item whose lots are worth something and not all offered.
    pub open spec fn is_waiting(self, e: (Seq<char>, Seq<BuyCostLot<N>>)) -> bool {
        N::whole(0).spec_below(lots_value(e.1)) && ordered_amount(
            self.orders.filter(active_for(e.0, false)),
        ) < total_amount(e.1)
    }

    /// An item that is kept from being sold at `now`.
    pub open spec fn is_blocked(self, key: Seq<char>, now: u64) -> bool {
        match lookup(self.performance, key) {
            Some(p) => p.blocks_selling(now),
            None => false,
        }
    }

    /// Items that wait to be sold, blocked or not.
    pub open spec fn waiting(self, blocked: bool, now: u64) -> spec_fn(
        (Seq<char>, Seq<BuyCostLot<N>>),
    ) -> bool {
        |e: (Seq<char>, Seq<BuyCostLot<N>>)|
            self.is_waiting(e) && self.is_blocked(e.0, now) == blocked
    }

    /// The performance of an item with what is ordered and held of it now.
    pub open spec fn with_holdings(self, p: PerformanceRecord<N>, now: u64) -> PerformanceRecord<
        N,
    > {
        let key = match_key(p.item_name);
        PerformanceRecord {
            current_open_buy_capital: orders_value(self.orders.filter(active_for(key, true))),
            current_open_sell_value: orders_value(self.orders.filter(active_for(key, false))),
            current_cost_lot_value: lots_value(self.lots_of(p.item_name)),
            max_cost_lot_age_seconds: longest_held(self.lots_of(p.item_name), now),
            ..p
        }
    }

    /// All performances with what is ordered and held now.
    pub open spec fn performances(self, now: u64) -> Entries<PerformanceRecord<N>> {
        self.performance.map_values(
            |e: (Seq<char>, PerformanceRecord<N>)| (e.0, self.with_holdings(e.1, now)),
        )
    }

    /// The snapshot at `now`.
    pub open spec fn snapshot(self, now: u64) -> SnapshotRecord<N> {
        let buys = self.orders.filter(active_on(true));
        let sells = self.orders.filter(active_on(false));
        let after_tax = estimated_after_tax(orders_value(sells));
        let actionable = self.lots.filter(self.waiting(false, now));
        let blocked = self.lots.filter(self.waiting(true, now));
        SnapshotRecord {
            realized_profit_total: self.accounts.realized_profit_total,
            unknown_cost_basis_sells: self.accounts.unknown_cost_basis_sells,
            ignored_legacy_profit_total: self.accounts.ignored_legacy_profit_total,
            open_buy_capital: orders_value(buys),
            open_sell_value: orders_value(sells),
            active_buy_orders: buys.len(),
            active_sell_orders: sells.len(),
            remaining_cost_lots: self.lots,
            remaining_cost_lot_value: entries_value(self.lots),
            estimated_sell_value_after_tax: after_tax,
            estimated_unrealized_profit: after_tax.spec_minus(entries_value(self.lots)),
            stale_buy_orders: self.orders.filter(stale_on(true, SNAPSHOT_STALE_SECONDS, now)).len(),
            stale_sell_orders: self.orders.filter(
                stale_on(false, SNAPSHOT_STALE_SECONDS, now),
            ).len(),
            items_waiting_for_sell: names(actionable),
            blocked_items_waiting_for_sell: names(blocked),
            blocked_cost_lot_value: entries_value(blocked),
            actionable_cost_lot_value: entries_value(actionable),
            last_sell_audit_at: self.accounts.last_sell_audit_at,
            web_graph_source: "local_fifo_known_cost_basis_only"@,
            last_sell_audit: self.accounts.last_sell_audit,
            item_performance: self.performances(now),
            cleanup_state: self.end_phase,
        }
    }
}

impl<N: Number> BazaarOrderTracker<N> {
    /// How many active orders there are on one side and what they are worth.
    fn active_figures(&self, is_buy_order: bool) -> (r: (usize, N))
        ensures
            r.0 == self@.orders.filter(active_on(is_buy_order)).len(),
            r.1 == orders_value(self@.orders.filter(active_on(is_buy_order))),
    {
        let ghost pred = active_on::<N>(is_buy_order);
        let mut count: usize = 0;
        let mut total: N = N::from_u64(0);
        let mut i: usize = 0;
        proof {
            reveal(Seq::filter);
        }
        while i < self.orders.len()
            invariant
                count <= i <= self.orders.len(),
                pred == active_on::<N>(is_buy_order),
                count == self@.orders.take(i as int).filter(pred).len(),
                total == orders_value(self@.orders.take(i as int).filter(pred)),
            decreases self.orders.len() - i,
        {
            let ghost seen = self@.orders.take(i as int).filter(pred);
            proof {
                filter_one_more(self@.orders, i as int, pred);
                assert(seen.push(self@.orders[i as int]).drop_last() =~= seen);
            }
            if self.orders[i].is_active() && self.orders[i].is_buy_order == is_buy_order {
                count = count + 1;
                total = total.plus(self.orders[i].value());
            }
            i = i + 1;
        }
        assert(self@.orders.take(i as int) == self@.orders);
        (count, total)
    }

    /// Whether an item is kept from being sold at `now`.
    fn blocked(&self, key: &str, now: u64) -> (r: bool)
        ensures
            r == self@.is_blocked(key@, now),
    {
        match self.item_performance.get(key) {
            Some(p) => match (p.cooldown_until, &p.block_reason) {
                (Some(until), Some(reason)) => until > now && (same_text(
                    reason.as_str(),
                    "NEGATIVE_EXPECTED_PROFIT",
                ) || same_text(reason.as_str(), "PRODUCT_LOOKUP_FAILED") || same_text(
                    reason.as_str(),
                    "COST_LOT_NOT_IN_INVENTORY",
                )),
                _ => false,
            },
            None => false,
        }
    }

    /// The items that wait to be sold, blocked or not, and what their lots have
    /// cost.
    fn waiting_items(&self, blocked: bool, now: u64) -> (r: (Vec<String>, N))
        ensures
            texts(r.0@) == names(self@.lots.filter(self@.waiting(blocked, now))),
            r.1 == entries_value(self@.lots.filter(self@.waiting(blocked, now))),
    {
        let ghost all = self@.lots;
        let ghost pred = self@.waiting(blocked, now);
        let mut items: Vec<String> = Vec::new();
        let mut value: N = N::from_u64(0);
        let mut i: usize = 0;
        proof {
            reveal(Seq::filter);
        }
        assert(texts(items@) =~= names(all.take(0).filter(pred)));
        while i < self.buy_cost_lots.len()
            invariant
                i <= all.len(),
                all == self@.lots,
                pred == self@.waiting(blocked, now),
                texts(items@) == names(all.take(i as int).filter(pred)),
                value == entries_value(all.take(i as int).filter(pred)),
            decreases all.len() - i,
        {
            let ghost seen = all.take(i as int).filter(pred);
            proof {
                filter_one_more(all, i as int, pred);
                assert(seen.push(all[i as int]).drop_last() =~= seen);
                assert(names(seen.push(all[i as int])) =~= names(seen).push(all[i as int].0));
            }
            let name = self.buy_cost_lots.name_at(i);
            let lots = self.buy_cost_lots.value_at(i);
            let item_value = value_lots(lots);
            let waits = N::from_u64(0).below(item_value) && self.active_sell_amount_of(
                name.as_str(),
            ) < count_units(lots);
            if waits && self.blocked(name.as_str(), now) == blocked {
                let ghost before = items@;
                items.push(name.clone());
                assert(texts(items@) =~= texts(before).push(name@));
                value = value.plus(item_value);
            }
            i = i + 1;
        }
        assert(all.take(i as int) == all);
        (items, value)
    }

    /// The lots of all items, and what they have cost.
    fn copy_lots(&self) -> (r: (Listing<Vec<BuyCostLot<N>>>, N))
        ensures
            r.0@ == self@.lots,
            r.1 == entries_value(self@.lots),
    {
        let ghost all = self@.lots;
        let mut out: Listing<Vec<BuyCostLot<N>>> = Listing::new();
        let mut value: N = N::from_u64(0);
        let mut i: usize = 0;
        assert(out@ =~= all.take(0));
        while i < self.buy_cost_lots.len()
            invariant
                i <= all.len(),
                all == self@.lots,
                out@ == all.take(i as int),
                value == entries_value(all.take(i as int)),
            decreases all.len() - i,
        {
            let lots = self.buy_cost_lots.value_at(i);
            let mut copied: Vec<BuyCostLot<N>> = Vec::new();
            let mut j: usize = 0;
            while j < lots.len()
                invariant
                    j <= lots.len(),
                    copied@ == lots@.take(j as int),
                decreases lots.len() - j,
            {
                copied.push(lots[j]);
                assert(lots@.take(j + 1) == lots@.take(j as int).push(lots@[j as int]));
                j = j + 1;
            }
            assert(copied@ =~= lots@);
            value = value.plus(value_lots(lots));
            assert(all.take(i + 1).drop_last() =~= all.take(i as int));
            out.push(self.buy_cost_lots.name_at(i).clone(), copied);
            assert(out@ =~= all.take(i + 1));
            i = i + 1;
        }
        assert(all.take(i as int) =~= all);
        (out, value)
    }

    /// How long the longest-held lot of an item is held at `now`.
    fn longest_held_for(&self, item_name: &str, now: u64) -> (r: u64)
        ensures
            r == longest_held(self@.lots_of(item_name@), now),
    {
        match self.buy_cost_lots.get(normalize_for_match(item_name).as_str()) {
            Some(lots) => {
                let mut longest: u64 = 0;
                let mut i: usize = 0;
                while i < lots.len()
                    invariant
                        i <= lots.len(),
                        longest == longest_held(lots@.take(i as int), now),
                    decreases lots.len() - i,
                {
                    assert(lots@.take(i + 1).drop_last() == lots@.take(i as int));
                    let age = now.saturating_sub(lots[i].collected_at);
                    if age > longest {
                        longest = age;
                    }
                    i = i + 1;
                }
                assert(lots@.take(i as int) == lots@);
                longest
            },
            None => 0,
        }
    }

    /// All performances with what is ordered and held at `now`.
    fn copy_performances(&self, now: u64) -> (r: Listing<ItemPerformance<N>>)
        ensures
            r@ == self@.performances(now),
    {
        let ghost all = self@.performances(now);
        let mut out: Listing<ItemPerformance<N>> = Listing::new();
        let mut i: usize = 0;
        assert(out@ =~= all.take(0));
        while i < self.item_performance.len()
            invariant
                i <= all.len(),
                all.len() == self@.performance.len(),
                all == self@.performances(now),
                out@ == all.take(i as int),
            decreases all.len() - i,
        {
            let mut p = self.item_performance.value_at(i).copy();
            p.current_open_buy_capital = self.open_order_value_for(p.item_name.as_str(), true);
            p.current_open_sell_value = self.open_order_value_for(p.item_name.as_str(), false);
            p.current_cost_lot_value = self.remaining_cost_lot_value_for(p.item_name.as_str());
            p.max_cost_lot_age_seconds = self.longest_held_for(p.item_name.as_str(), now);
            out.push(self.item_performance.name_at(i).clone(), p);
            assert(out@ =~= all.take(i + 1));
            i = i + 1;
        }
        assert(all.take(i as int) =~= all);
        out
    }

    /// The state of the order book and of the profit accounts at `now`.
    pub fn profit_audit_snapshot_at(&self, now: u64) -> (r: BazaarProfitAuditSnapshot<N>)
        ensures
            r@ == self@.snapshot(now),
    {
        let (active_buy_orders, open_buy_capital) = self.active_figures(true);
        let (active_sell_orders, open_sell_value) = self.active_figures(false);
        let stale_buy_orders = self.stale_order_count_at(true, SNAPSHOT_STALE_SECONDS, now);
        let stale_sell_orders = self.stale_order_count_at(false, SNAPSHOT_STALE_SECONDS, now);
        let tax_multiplier = N::from_u64(1).minus(N::from_u64(125).over(N::from_u64(10000)));
        let estimated_sell_value_after_tax = open_sell_value.times(tax_multiplier);
        let (remaining_cost_lots, remaining_cost_lot_value) = self.copy_lots();
        let (items_waiting_for_sell, actionable_cost_lot_value) = self.waiting_items(false, now);
        let (blocked_items_waiting_for_sell, blocked_cost_lot_value) = self.waiting_items(
            true,
            now,
        );
        BazaarProfitAuditSnapshot {
            current_fifo_realized_profit_total: self.profit_audit.current_fifo_realized_profit_total,
            unknown_cost_basis_sell_total_count:
                self.profit_audit.unknown_cost_basis_sell_total_count,
            ignored_legacy_profit_total: self.profit_audit.ignored_legacy_profit_total,
            open_buy_capital,
            open_sell_value,
            active_buy_orders,
            active_sell_orders,
            remaining_cost_lots,
            remaining_cost_lot_value,
            estimated_sell_value_after_tax,
            estimated_unrealized_profit: estimated_sell_value_after_tax.minus(
                remaining_cost_lot_value,
            ),
            stale_buy_orders,
            stale_sell_orders,
            items_waiting_for_sell,
            blocked_items_waiting_for_sell,
            blocked_cost_lot_value,
            actionable_cost_lot_value,
            last_sell_audit_at: self.profit_audit.last_sell_audit_at,
            web_graph_source: "local_fifo_known_cost_basis_only".to_string(),
            last_sell_audit: match &self.profit_audit.last_sell_audit {
                Some(audit) => Some(audit.copy()),
                None => None,
            },
            item_performance: self.copy_performances(now),
            cleanup_state: self.end_phase_state(),
        }
    }

    /// The state of the order book and of the profit accounts.
    pub fn profit_audit_snapshot(&self) -> (r: BazaarProfitAuditSnapshot<N>)
        ensures
            exists|now: u64| r@ == #[trigger] self@.snapshot(now),
    {
        let now = Self::now_secs();
        self.profit_audit_snapshot_at(now)
    }
}

} // verus!
