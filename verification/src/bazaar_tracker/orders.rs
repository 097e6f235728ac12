//! Tracked orders: placing, filling, removing and counting them.

use vstd::prelude::*;
use vstd::string::*;

use crate::bazaar_tracker::item_key::{match_key, normalize_for_match};
use crate::bazaar_tracker::lots::smaller_of;
use crate::bazaar_tracker::performance::with_performance_is_valid;
use crate::bazaar_tracker::records::{
    order_records, OrderRecord, PerformanceRecord, TrackedBazaarOrder,
};
use crate::bazaar_tracker::state::{BazaarOrderTracker, TrackerState};
use crate::listing::{lookup, with_entry};
use crate::number::Number;

verus! {

/// Filtering one element more.
pub proof fn filter_one_more<T>(s: Seq<T>, i: int, pred: spec_fn(T) -> bool)
    requires
        0 <= i < s.len(),
    ensures
        s.take(i + 1).filter(pred) == (if pred(s[i]) {
            s.take(i).filter(pred).push(s[i])
        } else {
            s.take(i).filter(pred)
        }),
{
    reveal(Seq::filter);
    assert(s.take(i + 1).drop_last() =~= s.take(i));
}

/// Active orders for the item `key` on one side.
pub open spec fn active_for<N>(key: Seq<char>, is_buy_order: bool) -> spec_fn(OrderRecord<N>) -> bool {
    |o: OrderRecord<N>| o.is_active() && o.is_for(key, is_buy_order)
}

/// Open orders for the item `key` on one side.
pub open spec fn open_for<N>(key: Seq<char>, is_buy_order: bool) -> spec_fn(OrderRecord<N>) -> bool {
    |o: OrderRecord<N>| o.is_open() && o.is_for(key, is_buy_order)
}

/// Filled orders on one side.
pub open spec fn filled_on<N>(is_buy_order: bool) -> spec_fn(OrderRecord<N>) -> bool {
    |o: OrderRecord<N>| o.is_buy_order == is_buy_order && o.is_filled()
}

/// Active orders on one side that are at least `max_age_secs` old at `now`.
pub open spec fn stale_on<N>(is_buy_order: bool, max_age_secs: u64, now: u64) -> spec_fn(
    OrderRecord<N>,
) -> bool {
    |o: OrderRecord<N>|
        o.is_buy_order == is_buy_order && o.is_active() && o.is_stale(now, max_age_secs)
}

/// Orders that are not older than `max_age_secs` at `now`.
pub open spec fn not_older_than<N>(max_age_secs: u64, now: u64) -> spec_fn(OrderRecord<N>) -> bool {
    |o: OrderRecord<N>| !o.is_older_than(now, max_age_secs)
}

/// The position of the last order that `pred` holds of; -1 where there is none.
pub open spec fn last_position<N>(
    orders: Seq<OrderRecord<N>>,
    pred: spec_fn(OrderRecord<N>) -> bool,
) -> int
    decreases orders.len(),
{
    if orders.len() == 0 {
        -1
    } else if pred(orders.last()) {
        orders.len() - 1
    } else {
        last_position(orders.drop_last(), pred)
    }
}

/// What the last position is.
pub proof fn last_position_is_last<N>(
    orders: Seq<OrderRecord<N>>,
    pred: spec_fn(OrderRecord<N>) -> bool,
)
    ensures
        -1 <= last_position(orders, pred) < orders.len(),
        last_position(orders, pred) >= 0 ==> pred(orders[last_position(orders, pred)]),
        forall|j: int| last_position(orders, pred) < j < orders.len() ==> !pred(#[trigger] orders[j]),
    decreases orders.len(),
{
    if orders.len() > 0 && !pred(orders.last()) {
        last_position_is_last(orders.drop_last(), pred);
        assert forall|j: int| last_position(orders, pred) < j < orders.len() implies !pred(
            #[trigger] orders[j],
        ) by {
            if j < orders.len() - 1 {
                assert(orders.drop_last()[j] == orders[j]);
            }
        }
    }
}

/// `i` is the order placed first among those that `pred` holds of; of several
/// placed at the same time, the first in the list.
pub open spec fn is_oldest<N>(
    orders: Seq<OrderRecord<N>>,
    pred: spec_fn(OrderRecord<N>) -> bool,
    i: int,
) -> bool {
    &&& 0 <= i < orders.len()
    &&& pred(orders[i])
    &&& forall|j: int|
        0 <= j < orders.len() && pred(#[trigger] orders[j]) ==> orders[i].placed_at
            <= orders[j].placed_at
    &&& forall|j: int|
        0 <= j < i && pred(#[trigger] orders[j]) ==> orders[i].placed_at < orders[j].placed_at
}

/// `pred` holds of no order.
pub open spec fn holds_of_none<N>(
    orders: Seq<OrderRecord<N>>,
    pred: spec_fn(OrderRecord<N>) -> bool,
) -> bool {
    forall|j: int| 0 <= j < orders.len() ==> !pred(#[trigger] orders[j])
}

/// What the orders are worth together.
pub open spec fn orders_value<N: Number>(orders: Seq<OrderRecord<N>>) -> N
    decreases orders.len(),
{
    if orders.len() == 0 {
        N::whole(0)
    } else {
        orders_value(orders.drop_last()).spec_plus(orders.last().value())
    }
}

/// How many units are ordered; the count wraps around.
pub open spec fn ordered_amount<N>(orders: Seq<OrderRecord<N>>) -> u64
    decreases orders.len(),
{
    if orders.len() == 0 {
        0
    } else {
        ordered_amount(orders.drop_last()).wrapping_add(orders.last().amount)
    }
}

/// How many units are ordered, at most the largest count.
pub open spec fn capped_amount<N>(orders: Seq<OrderRecord<N>>) -> u64
    decreases orders.len(),
{
    if orders.len() == 0 {
        0
    } else {
        capped_amount(orders.drop_last()).saturating_add(orders.last().amount)
    }
}

/// How much of an order is collected: what was claimed, and all of it where
/// the claim says nothing.
pub open spec fn collected_amount(ordered: u64, claimed: Option<u64>) -> u64 {
    smaller_of(
        match claimed {
            Some(amount) => if amount > 0 {
                amount
            } else {
                ordered
            },
            None => ordered,
        },
        ordered,
    )
}

/// Active sell orders of the item `key` that offer anything.
pub open spec fn offered<N>(key: Seq<char>) -> spec_fn(OrderRecord<N>) -> bool {
    |o: OrderRecord<N>| o.is_for(key, false) && o.amount > 0 && o.is_active()
}

/// The sell orders that offer the item `key`.
pub open spec fn sell_group<N>(orders: Seq<OrderRecord<N>>, key: Seq<char>) -> Seq<OrderRecord<N>> {
    orders.filter(offered(key))
}

/// The order placed first; of several placed at the same time, the last.
pub open spec fn earliest<N>(group: Seq<OrderRecord<N>>) -> OrderRecord<N>
    decreases group.len(),
{
    if group.len() <= 1 {
        group[0]
    } else {
        let before = earliest(group.drop_last());
        if group.last().placed_at <= before.placed_at {
            group.last()
        } else {
            before
        }
    }
}

/// Group `a` comes before group `b`: more orders, then more units, then the
/// older first order.
pub open spec fn outranks<N>(a: Seq<OrderRecord<N>>, b: Seq<OrderRecord<N>>) -> bool {
    a.len() > b.len() || (a.len() == b.len() && (capped_amount(a) > capped_amount(b) || (
    capped_amount(a) == capped_amount(b) && earliest(a).placed_at < earliest(b).placed_at)))
}

/// The item `key` is offered by several orders, and no such item outranks it.
pub open spec fn is_top_duplicate<N>(orders: Seq<OrderRecord<N>>, key: Seq<char>) -> bool {
    sell_group(orders, key).len() > 1 && forall|other: Seq<char>|
        (#[trigger] sell_group(orders, other)).len() > 1 ==> !outranks(
            sell_group(orders, other),
            sell_group(orders, key),
        )
}

impl<N: Number> TrackerState<N> {
    pub open spec fn after_add_order(
        self,
        item_name: Seq<char>,
        amount: u64,
        price_per_unit: N,
        is_buy_order: bool,
        now: u64,
    ) -> TrackerState<N> {
        let p = self.performance_of(item_name);
        TrackerState {
            orders: self.orders.push(
                OrderRecord {
                    item_name,
                    amount,
                    price_per_unit,
                    is_buy_order,
                    status: "open"@,
                    placed_at: now,
                },
            ),
            ..self.with_performance(
                item_name,
                if is_buy_order {
                    PerformanceRecord {
                        buy_orders_placed: p.buy_orders_placed.wrapping_add(1),
                        ..p
                    }
                } else {
                    PerformanceRecord {
                        sell_orders_placed: p.sell_orders_placed.wrapping_add(1),
                        ..p
                    }
                },
            )
        }
    }

    /// The position of the open order that is filled next.
    pub open spec fn fill_position(self, item_name: Seq<char>, is_buy_order: bool) -> int {
        last_position(self.orders, open_for(match_key(item_name), is_buy_order))
    }

    pub open spec fn after_mark_filled(
        self,
        item_name: Seq<char>,
        is_buy_order: bool,
    ) -> TrackerState<N> {
        let i = self.fill_position(item_name, is_buy_order);
        if i < 0 {
            self
        } else {
            TrackerState {
                orders: self.orders.update(
                    i,
                    OrderRecord { status: "filled"@, ..self.orders[i] },
                ),
                ..self
            }
        }
    }

    /// The position of the newest active order for an item.
    pub open spec fn newest_position(self, item_name: Seq<char>, is_buy_order: bool) -> int {
        last_position(self.orders, active_for(match_key(item_name), is_buy_order))
    }

    pub open spec fn without_order(self, i: int) -> TrackerState<N> {
        TrackerState { orders: self.orders.remove(i), ..self }
    }

    /// `collected` units of the order at `i` are claimed: the rest stays open,
    /// an order without a rest goes, and claimed sells are remembered.
    pub open spec fn after_collect(
        self,
        item_name: Seq<char>,
        i: int,
        collected: u64,
    ) -> TrackerState<N> {
        let order = self.orders[i];
        let key = match_key(item_name);
        TrackerState {
            orders: if collected < order.amount {
                self.orders.update(
                    i,
                    OrderRecord {
                        amount: (order.amount - collected) as u64,
                        status: "open"@,
                        ..order
                    },
                )
            } else {
                self.orders.remove(i)
            },
            sell_fills: if !order.is_buy_order && collected > 0 {
                let before = match lookup(self.sell_fills, key) {
                    Some(n) => n,
                    None => 0,
                };
                with_entry(self.sell_fills, key, before.wrapping_add(collected))
            } else {
                self.sell_fills
            },
            ..self
        }
    }
}

impl<N: Number> BazaarOrderTracker<N> {
    /// Records an order that was placed at `now`.
    pub fn add_order_at(
        &mut self,
        item_name: String,
        amount: u64,
        price_per_unit: N,
        is_buy_order: bool,
        now: u64,
    )
        ensures
            final(self)@ == old(self)@.after_add_order(
                item_name@,
                amount,
                price_per_unit,
                is_buy_order,
                now,
            ),
            old(self)@.is_valid() ==> final(self)@.is_valid(),
    {
        let mut p = self.performance_record(item_name.as_str());
        if is_buy_order {
            p.buy_orders_placed = p.buy_orders_placed.wrapping_add(1);
        } else {
            p.sell_orders_placed = p.sell_orders_placed.wrapping_add(1);
        }
        self.store_performance(item_name.as_str(), p);
        proof {
            if old(self)@.is_valid() {
                with_performance_is_valid(old(self)@, item_name@, p@);
            }
        }
        let order = TrackedBazaarOrder {
            item_name,
            amount,
            price_per_unit,
            is_buy_order,
            status: "open".to_string(),
            placed_at: now,
        };
        self.orders.push(order);
        assert(order_records(self.orders@) =~= order_records(old(self).orders@).push(order@));
    }

    /// Records a newly placed order.
    pub fn add_order(
        &mut self,
        item_name: String,
        amount: u64,
        price_per_unit: N,
        is_buy_order: bool,
    )
        ensures
            exists|now: u64|
                final(self)@ == #[trigger] old(self)@.after_add_order(
                    item_name@,
                    amount,
                    price_per_unit,
                    is_buy_order,
                    now,
                ),
            old(self)@.is_valid() ==> final(self)@.is_valid(),
    {
        let now = Self::now_secs();
        self.add_order_at(item_name, amount, price_per_unit, is_buy_order, now);
    }

    /// The position of the newest order for an item, among the open ones or
    /// among all active ones.
    fn find_newest(&self, key: &str, is_buy_order: bool, open_only: bool) -> (r: Option<usize>)
        ensures
            ({
                let i = last_position(
                    self@.orders,
                    if open_only {
                        open_for(key@, is_buy_order)
                    } else {
                        active_for(key@, is_buy_order)
                    },
                );
                match r {
                    Some(pos) => i == pos && pos < self.orders.len(),
                    None => i == -1,
                }
            }),
    {
        let ghost pred = if open_only {
            open_for::<N>(key@, is_buy_order)
        } else {
            active_for::<N>(key@, is_buy_order)
        };
        let mut n: usize = self.orders.len();
        assert(self@.orders.take(n as int) == self@.orders);
        while n > 0
            invariant
                n <= self.orders.len(),
                self@.orders.len() == self.orders.len(),
                pred == (if open_only {
                    open_for::<N>(key@, is_buy_order)
                } else {
                    active_for::<N>(key@, is_buy_order)
                }),
                last_position(self@.orders, pred) == last_position(self@.orders.take(n as int), pred),
            decreases n,
        {
            let order = &self.orders[n - 1];
            assert(self@.orders.take(n as int).last() == order@);
            assert(self@.orders.take(n as int).drop_last() == self@.orders.take(n - 1));
            let live = if open_only {
                order.is_open()
            } else {
                order.is_active()
            };
            if live && order.is_for(key, is_buy_order) {
                return Some(n - 1);
            }
            n = n - 1;
        }
        None
    }

    /// Marks the newest matching open order as filled.
    pub fn mark_filled(&mut self, item_name: &str, is_buy_order: bool)
        ensures
            final(self)@ == old(self)@.after_mark_filled(item_name@, is_buy_order),
            old(self)@.is_valid() ==> final(self)@.is_valid(),
    {
        let key = normalize_for_match(item_name);
        if let Some(pos) = self.find_newest(key.as_str(), is_buy_order, true) {
            let mut order = self.orders[pos].copy();
            order.status = "filled".to_string();
            self.orders[pos] = order;
            assert(order_records(self.orders@) =~= order_records(old(self).orders@).update(
                pos as int,
                order@,
            ));
        }
    }

    /// Removes the newest matching order and returns it.
    pub fn remove_order(&mut self, item_name: &str, is_buy_order: bool) -> (r: Option<
        TrackedBazaarOrder<N>,
    >)
        ensures
            ({
                let i = old(self)@.newest_position(item_name@, is_buy_order);
                match r {
                    Some(order) => i >= 0 && order@ == old(self)@.orders[i] && final(self)@
                        == old(self)@.without_order(i),
                    None => i < 0 && final(self)@ == old(self)@,
                }
            }),
            old(self)@.is_valid() ==> final(self)@.is_valid(),
    {
        let key = normalize_for_match(item_name);
        match self.find_newest(key.as_str(), is_buy_order, false) {
            Some(pos) => {
                let order = self.orders.remove(pos);
                assert(order_records(self.orders@) =~= order_records(old(self).orders@).remove(
                    pos as int,
                ));
                Some(order)
            },
            None => None,
        }
    }

    /// Removes the matching order that was placed first and returns it. Orders
    /// are cancelled oldest first; removing the newest instead would leave the
    /// stale one behind.
    pub fn remove_oldest_order(&mut self, item_name: &str, is_buy_order: bool) -> (r: Option<
        TrackedBazaarOrder<N>,
    >)
        ensures
            ({
                let pred = active_for::<N>(match_key(item_name@), is_buy_order);
                match r {
                    Some(order) => exists|i: int|
                        {
                            &&& #[trigger] is_oldest(old(self)@.orders, pred, i)
                            &&& order@ == old(self)@.orders[i]
                            &&& final(self)@ == old(self)@.without_order(i)
                        },
                    None => holds_of_none(old(self)@.orders, pred) && final(self)@ == old(self)@,
                }
            }),
            old(self)@.is_valid() ==> final(self)@.is_valid(),
    {
        let key = normalize_for_match(item_name);
        let ghost pred = active_for::<N>(key@, is_buy_order);
        let mut best: Option<usize> = None;
        let mut i: usize = 0;
        while i < self.orders.len()
            invariant
                i <= self.orders.len(),
                self@ == old(self)@,
                self@.orders.len() == self.orders.len(),
                pred == active_for::<N>(key@, is_buy_order),
                match best {
                    Some(b) => b < i && is_oldest(self@.orders.take(i as int), pred, b as int),
                    None => holds_of_none(self@.orders.take(i as int), pred),
                },
            decreases self.orders.len() - i,
        {
            let order = &self.orders[i];
            let ghost seen = self@.orders.take(i as int);
            let ghost next = self@.orders.take(i + 1);
            assert(next =~= seen.push(order@));
            if order.is_active() && order.is_for(key.as_str(), is_buy_order) {
                let first = match best {
                    Some(b) => order.placed_at < self.orders[b].placed_at,
                    None => true,
                };
                assert(forall|j: int| 0 <= j < i ==> next[j] == #[trigger] seen[j]);
                if first {
                    best = Some(i);
                    assert(is_oldest(next, pred, i as int));
                }
            } else {
                assert(forall|j: int| 0 <= j < i ==> next[j] == #[trigger] seen[j]);
            }
            i = i + 1;
        }
        assert(self@.orders.take(i as int) == self@.orders);
        match best {
            Some(pos) => {
                let order = self.orders.remove(pos);
                assert(order_records(self.orders@) =~= order_records(old(self).orders@).remove(
                    pos as int,
                ));
                assert(is_oldest(old(self)@.orders, pred, pos as int));
                Some(order)
            },
            None => None,
        }
    }

    /// Takes the claimed part off the newest matching order and returns that
    /// part; the unfilled rest stays tracked as open.
    pub fn remove_or_reduce_order_on_collect(
        &mut self,
        item_name: &str,
        is_buy_order: bool,
        claimed_amount: Option<u64>,
    ) -> (r: Option<TrackedBazaarOrder<N>>)
        ensures
            ({
                let i = old(self)@.newest_position(item_name@, is_buy_order);
                match r {
                    Some(part) => {
                        let order = old(self)@.orders[i];
                        let collected = collected_amount(order.amount, claimed_amount);
                        &&& i >= 0
                        &&& part@ == (OrderRecord { amount: collected, ..order })
                        &&& final(self)@ == old(self)@.after_collect(item_name@, i, collected)
                    },
                    None => i < 0 && final(self)@ == old(self)@,
                }
            }),
            old(self)@.is_valid() ==> final(self)@.is_valid(),
    {
        let key = normalize_for_match(item_name);
        let pos = match self.find_newest(key.as_str(), is_buy_order, false) {
            Some(pos) => pos,
            None => {
                return None;
            },
        };
        proof {
            last_position_is_last(self@.orders, active_for(key@, is_buy_order));
        }
        let tracked_amount = self.orders[pos].amount;
        let wanted = match claimed_amount {
            Some(amount) => if amount > 0 {
                amount
            } else {
                tracked_amount
            },
            None => tracked_amount,
        };
        let collected_amount = if wanted <= tracked_amount {
            wanted
        } else {
            tracked_amount
        };
        let mut collected = self.orders[pos].copy();
        collected.amount = collected_amount;
        if collected_amount < tracked_amount {
            let mut rest = self.orders[pos].copy();
            rest.amount = tracked_amount - collected_amount;
            rest.status = "open".to_string();
            self.orders[pos] = rest;
            assert(order_records(self.orders@) =~= order_records(old(self).orders@).update(
                pos as int,
                rest@,
            ));
        } else {
            let _ = self.orders.remove(pos);
            assert(order_records(self.orders@) =~= order_records(old(self).orders@).remove(
                pos as int,
            ));
        }
        if !is_buy_order && collected_amount > 0 {
            let before: u64 = match self.recently_collected_sell_fills.get(key.as_str()) {
                Some(n) => *n,
                None => 0,
            };
            proof {
                crate::listing::lookup_after_with_entry(
                    self@.sell_fills,
                    key@,
                    before.wrapping_add(collected_amount),
                    key@,
                );
            }
            self.recently_collected_sell_fills.insert(key, before.wrapping_add(collected_amount));
        }
        Some(collected)
    }

    /// All tracked orders.
    pub fn get_orders(&self) -> (r: Vec<TrackedBazaarOrder<N>>)
        ensures
            order_records(r@) == self@.orders,
    {
        let mut out: Vec<TrackedBazaarOrder<N>> = Vec::new();
        let mut i: usize = 0;
        while i < self.orders.len()
            invariant
                i <= self.orders.len(),
                out.len() == i,
                forall|j: int| 0 <= j < i ==> (#[trigger] out@[j])@ == self.orders@[j]@,
            decreases self.orders.len() - i,
        {
            out.push(self.orders[i].copy());
            i = i + 1;
        }
        assert(order_records(out@) =~= self@.orders);
        out
    }

    /// How many orders on one side are filled.
    pub fn filled_order_count(&self, is_buy_order: bool) -> (r: usize)
        ensures
            r == self@.orders.filter(filled_on(is_buy_order)).len(),
    {
        let ghost pred = filled_on::<N>(is_buy_order);
        let mut count: usize = 0;
        let mut i: usize = 0;
        proof {
            reveal(Seq::filter);
        }
        while i < self.orders.len()
            invariant
                count <= i <= self.orders.len(),
                pred == filled_on::<N>(is_buy_order),
                count == self@.orders.take(i as int).filter(pred).len(),
            decreases self.orders.len() - i,
        {
            proof {
                filter_one_more(self@.orders, i as int, pred);
            }
            if self.orders[i].is_buy_order == is_buy_order && self.orders[i].is_filled() {
                count = count + 1;
            }
            i = i + 1;
        }
        assert(self@.orders.take(i as int) == self@.orders);
        count
    }

    /// How many active orders on one side are at least `max_age_secs` old at
    /// `now`.
    pub fn stale_order_count_at(&self, is_buy_order: bool, max_age_secs: u64, now: u64) -> (r: usize)
        ensures
            r == self@.orders.filter(stale_on(is_buy_order, max_age_secs, now)).len(),
    {
        let ghost pred = stale_on::<N>(is_buy_order, max_age_secs, now);
        let mut count: usize = 0;
        let mut i: usize = 0;
        proof {
            reveal(Seq::filter);
        }
        while i < self.orders.len()
            invariant
                count <= i <= self.orders.len(),
                pred == stale_on::<N>(is_buy_order, max_age_secs, now),
                count == self@.orders.take(i as int).filter(pred).len(),
            decreases self.orders.len() - i,
        {
            proof {
                filter_one_more(self@.orders, i as int, pred);
            }
            let order = &self.orders[i];
            if order.is_buy_order == is_buy_order && order.is_active() && order.is_stale(
                now,
                max_age_secs,
            ) {
                count = count + 1;
            }
            i = i + 1;
        }
        assert(self@.orders.take(i as int) == self@.orders);
        count
    }

    /// How many active orders on one side are at least `max_age_secs` old.
    pub fn stale_order_count(&self, is_buy_order: bool, max_age_secs: u64) -> (r: usize)
        ensures
            exists|now: u64|
                r == self@.orders.filter(#[trigger] stale_on(is_buy_order, max_age_secs, now)).len(),
    {
        let now = Self::now_secs();
        self.stale_order_count_at(is_buy_order, max_age_secs, now)
    }

    /// The stale order on one side that was placed first.
    pub fn oldest_stale_order_at(&self, is_buy_order: bool, max_age_secs: u64, now: u64) -> (r:
        Option<TrackedBazaarOrder<N>>)
        ensures
            self@.is_oldest_stale(r, is_buy_order, max_age_secs, now),
    {
        let ghost pred = stale_on::<N>(is_buy_order, max_age_secs, now);
        let mut best: Option<usize> = None;
        let mut i: usize = 0;
        while i < self.orders.len()
            invariant
                i <= self.orders.len(),
                self@.orders.len() == self.orders.len(),
                pred == stale_on::<N>(is_buy_order, max_age_secs, now),
                match best {
                    Some(b) => b < i && is_oldest(self@.orders.take(i as int), pred, b as int),
                    None => holds_of_none(self@.orders.take(i as int), pred),
                },
            decreases self.orders.len() - i,
        {
            let order = &self.orders[i];
            let ghost seen = self@.orders.take(i as int);
            let ghost next = self@.orders.take(i + 1);
            assert(next =~= seen.push(order@));
            assert(forall|j: int| 0 <= j < i ==> next[j] == #[trigger] seen[j]);
            if order.is_buy_order == is_buy_order && order.is_active() && order.is_stale(
                now,
                max_age_secs,
            ) {
                let first = match best {
                    Some(b) => order.placed_at < self.orders[b].placed_at,
                    None => true,
                };
                if first {
                    best = Some(i);
                    assert(is_oldest(next, pred, i as int));
                }
            }
            i = i + 1;
        }
        assert(self@.orders.take(i as int) == self@.orders);
        match best {
            Some(pos) => {
                assert(is_oldest(self@.orders, pred, pos as int));
                Some(self.orders[pos].copy())
            },
            None => None,
        }
    }

    /// The stale order on one side that was placed first.
    pub fn oldest_stale_order(&self, is_buy_order: bool, max_age_secs: u64) -> (r: Option<
        TrackedBazaarOrder<N>,
    >)
        ensures
            exists|now: u64| #[trigger] self@.is_oldest_stale(r, is_buy_order, max_age_secs, now),
    {
        let now = Self::now_secs();
        self.oldest_stale_order_at(is_buy_order, max_age_secs, now)
    }

    /// Removes all orders and returns how many there were.
    pub fn clear_all_orders(&mut self) -> (r: usize)
        ensures
            r == old(self)@.orders.len(),
            final(self)@ == (TrackerState { orders: Seq::empty(), ..old(self)@ }),
    {
        let removed = self.orders.len();
        self.orders.clear();
        assert(order_records(self.orders@) =~= Seq::empty());
        removed
    }

    /// Whether any order is filled.
    pub fn has_filled_orders(&self) -> (r: bool)
        ensures
            r == exists|i: int| 0 <= i < self@.orders.len() && (#[trigger] self@.orders[i]).is_filled(),
    {
        let mut i: usize = 0;
        while i < self.orders.len()
            invariant
                i <= self.orders.len(),
                self@.orders.len() == self.orders.len(),
                forall|j: int| 0 <= j < i ==> !(#[trigger] self@.orders[j]).is_filled(),
            decreases self.orders.len() - i,
        {
            assert(self@.orders[i as int] == self.orders@[i as int]@);
            if self.orders[i].is_filled() {
                return true;
            }
            i = i + 1;
        }
        false
    }

    /// Removes the orders that are older than `max_age_secs` at `now` and
    /// returns how many went.
    pub fn remove_stale_orders_at(&mut self, max_age_secs: u64, now: u64) -> (r: usize)
        ensures
            final(self)@ == old(self)@.after_remove_stale(max_age_secs, now),
            r == old(self)@.orders.len() - final(self)@.orders.len(),
            old(self)@.is_valid() ==> final(self)@.is_valid(),
    {
        let ghost all = self@.orders;
        let ghost pred = not_older_than::<N>(max_age_secs, now);
        let count_before = self.orders.len();
        let mut kept: Vec<TrackedBazaarOrder<N>> = Vec::new();
        let mut i: usize = 0;
        proof {
            reveal(Seq::filter);
        }
        assert(order_records(kept@) =~= all.take(0).filter(pred));
        while i < self.orders.len()
            invariant
                i <= self.orders.len(),
                kept.len() <= i,
                *self == *old(self),
                all == self@.orders,
                pred == not_older_than::<N>(max_age_secs, now),
                order_records(kept@) == all.take(i as int).filter(pred),
            decreases self.orders.len() - i,
        {
            proof {
                filter_one_more(all, i as int, pred);
            }
            if !self.orders[i].is_older_than(now, max_age_secs) {
                let ghost before = order_records(kept@);
                kept.push(self.orders[i].copy());
                assert(order_records(kept@) =~= before.push(all[i as int]));
            }
            i = i + 1;
        }
        assert(all.take(i as int) == all);
        let removed = count_before - kept.len();
        self.orders = kept;
        removed
    }

    /// Removes the orders that are older than `max_age_secs` and returns how
    /// many went.
    pub fn remove_stale_orders(&mut self, max_age_secs: u64) -> (r: usize)
        ensures
            exists|now: u64|
                final(self)@ == #[trigger] old(self)@.after_remove_stale(max_age_secs, now),
            r == old(self)@.orders.len() - final(self)@.orders.len(),
            old(self)@.is_valid() ==> final(self)@.is_valid(),
    {
        let now = Self::now_secs();
        self.remove_stale_orders_at(max_age_secs, now)
    }

    /// What the active orders for an item are worth together.
    pub fn open_order_value_for(&self, item_name: &str, is_buy_order: bool) -> (r: N)
        ensures
            r == orders_value(
                self@.orders.filter(active_for(match_key(item_name@), is_buy_order)),
            ),
    {
        let key = normalize_for_match(item_name);
        let ghost pred = active_for::<N>(key@, is_buy_order);
        let mut total: N = N::from_u64(0);
        let mut i: usize = 0;
        proof {
            reveal(Seq::filter);
        }
        while i < self.orders.len()
            invariant
                i <= self.orders.len(),
                pred == active_for::<N>(key@, is_buy_order),
                total == orders_value(self@.orders.take(i as int).filter(pred)),
            decreases self.orders.len() - i,
        {
            let ghost seen = self@.orders.take(i as int).filter(pred);
            proof {
                filter_one_more(self@.orders, i as int, pred);
                assert(seen.push(self@.orders[i as int]).drop_last() =~= seen);
            }
            if self.orders[i].is_active() && self.orders[i].is_for(key.as_str(), is_buy_order) {
                total = total.plus(self.orders[i].value());
            }
            i = i + 1;
        }
        assert(self@.orders.take(i as int) == self@.orders);
        total
    }

    /// How many units of an item are offered by active sell orders.
    pub fn active_sell_amount_for(&self, item_name: &str) -> (r: u64)
        ensures
            r == ordered_amount(self@.orders.filter(active_for(match_key(item_name@), false))),
    {
        let key = normalize_for_match(item_name);
        self.active_sell_amount_of(key.as_str())
    }

    /// How many units of the item `key` are offered by active sell orders.
    pub(crate) fn active_sell_amount_of(&self, key: &str) -> (r: u64)
        ensures
            r == ordered_amount(self@.orders.filter(active_for(key@, false))),
    {
        let ghost pred = active_for::<N>(key@, false);
        let mut total: u64 = 0;
        let mut i: usize = 0;
        proof {
            reveal(Seq::filter);
        }
        while i < self.orders.len()
            invariant
                i <= self.orders.len(),
                pred == active_for::<N>(key@, false),
                total == ordered_amount(self@.orders.take(i as int).filter(pred)),
            decreases self.orders.len() - i,
        {
            let ghost seen = self@.orders.take(i as int).filter(pred);
            proof {
                filter_one_more(self@.orders, i as int, pred);
                assert(seen.push(self@.orders[i as int]).drop_last() =~= seen);
            }
            if self.orders[i].is_active() && self.orders[i].is_for(key, false) {
                total = total.wrapping_add(self.orders[i].amount);
            }
            i = i + 1;
        }
        assert(self@.orders.take(i as int) == self@.orders);
        total
    }

    /// How many active sell orders there are for an item.
    pub fn active_sell_order_count_for(&self, item_name: &str) -> (r: usize)
        ensures
            r == self@.orders.filter(active_for(match_key(item_name@), false)).len(),
    {
        let key = normalize_for_match(item_name);
        let ghost pred = active_for::<N>(key@, false);
        let mut count: usize = 0;
        let mut i: usize = 0;
        proof {
            reveal(Seq::filter);
        }
        while i < self.orders.len()
            invariant
                count <= i <= self.orders.len(),
                pred == active_for::<N>(key@, false),
                count == self@.orders.take(i as int).filter(pred).len(),
            decreases self.orders.len() - i,
        {
            proof {
                filter_one_more(self@.orders, i as int, pred);
            }
            if self.orders[i].is_active() && self.orders[i].is_for(key.as_str(), false) {
                count = count + 1;
            }
            i = i + 1;
        }
        assert(self@.orders.take(i as int) == self@.orders);
        count
    }

    /// The orders, the capped amount and the first order of the sell group of
    /// `key`.
    fn sell_group_figures(&self, key: &str) -> (r: (usize, u64, Option<usize>))
        ensures
            ({
                let group = sell_group(self@.orders, key@);
                &&& r.0 == group.len()
                &&& r.1 == capped_amount(group)
                &&& match r.2 {
                    Some(first) => group.len() > 0 && first < self.orders.len()
                        && self@.orders[first as int] == earliest(group),
                    None => group.len() == 0,
                }
            }),
    {
        let ghost pred = offered::<N>(key@);
        let mut count: usize = 0;
        let mut amount: u64 = 0;
        let mut first: Option<usize> = None;
        let mut i: usize = 0;
        proof {
            reveal(Seq::filter);
        }
        while i < self.orders.len()
            invariant
                count <= i <= self.orders.len(),
                self@.orders.len() == self.orders.len(),
                pred == offered::<N>(key@),
                count == self@.orders.take(i as int).filter(pred).len(),
                amount == capped_amount(self@.orders.take(i as int).filter(pred)),
                match first {
                    Some(f) => count > 0 && f < i && self@.orders[f as int] == earliest(
                        self@.orders.take(i as int).filter(pred),
                    ),
                    None => count == 0,
                },
            decreases self.orders.len() - i,
        {
            let order = &self.orders[i];
            let ghost seen = self@.orders.take(i as int).filter(pred);
            proof {
                filter_one_more(self@.orders, i as int, pred);
                assert(seen.push(self@.orders[i as int]).drop_last() =~= seen);
                assert(self@.orders[i as int] == order@);
            }
            if order.is_for(key, false) && order.amount > 0 && order.is_active() {
                count = count + 1;
                amount = amount.saturating_add(order.amount);
                let older = match first {
                    Some(f) => order.placed_at <= self.orders[f].placed_at,
                    None => true,
                };
                if older {
                    first = Some(i);
                }
            }
            i = i + 1;
        }
        assert(self@.orders.take(i as int) == self@.orders);
        (count, amount, first)
    }

    /// The item that is offered by the most sell orders, if by several: the
    /// name on its first order, how many orders and how many units.
    pub fn duplicate_active_sell_order_target(&self) -> (r: Option<(String, usize, u64)>)
        ensures
            match r {
                Some((name, count, amount)) => exists|key: Seq<char>|
                    {
                        let group = sell_group(self@.orders, key);
                        &&& #[trigger] is_top_duplicate(self@.orders, key)
                        &&& name@ == earliest(group).item_name
                        &&& count == group.len()
                        &&& amount == capped_amount(group)
                    },
                None => forall|key: Seq<char>|
                    (#[trigger] sell_group(self@.orders, key)).len() <= 1,
            },
    {
        let mut best: Option<(usize, u64, usize)> = None;
        let ghost mut best_key = Seq::<char>::empty();
        let mut i: usize = 0;
        while i < self.orders.len()
            invariant
                i <= self.orders.len(),
                self@.orders.len() == self.orders.len(),
                match best {
                    Some((count, amount, first)) => {
                        let group = sell_group(self@.orders, best_key);
                        &&& count == group.len()
                        &&& count > 1
                        &&& amount == capped_amount(group)
                        &&& first < self.orders.len()
                        &&& self@.orders[first as int] == earliest(group)
                        &&& forall|j: int|
                            0 <= j < i && sell_group(
                                self@.orders,
                                (#[trigger] self@.orders[j]).key(),
                            ).len() > 1 ==> !outranks(
                                sell_group(self@.orders, self@.orders[j].key()),
                                group,
                            )
                    },
                    None => forall|j: int|
                        0 <= j < i ==> sell_group(
                            self@.orders,
                            (#[trigger] self@.orders[j]).key(),
                        ).len() <= 1,
                },
            decreases self.orders.len() - i,
        {
            let key = normalize_for_match(self.orders[i].item_name.as_str());
            assert(self@.orders[i as int].key() == key@);
            let (count, amount, first) = self.sell_group_figures(key.as_str());
            if let Some(f) = first {
                if count > 1 {
                    let better = match best {
                        Some((best_count, best_amount, best_first)) => count > best_count || (count
                            == best_count && (amount > best_amount || (amount == best_amount
                            && self.orders[f].placed_at < self.orders[best_first].placed_at))),
                        None => true,
                    };
                    if better {
                        best = Some((count, amount, f));
                        proof {
                            best_key = key@;
                        }
                    }
                }
            }
            i = i + 1;
        }
        proof {
            assert forall|key: Seq<char>| (#[trigger] sell_group(self@.orders, key)).len()
                > 1 implies exists|j: int|
                0 <= j < self@.orders.len() && (#[trigger] self@.orders[j]).key() == key by {
                let group = sell_group(self@.orders, key);
                let o = group[0];
                self@.orders.lemma_filter_pred(offered(key), 0);
                assert(group.contains(o));
                self@.orders.lemma_filter_contains_rev(offered(key), o);
                let j = choose|j: int| 0 <= j < self@.orders.len() && self@.orders[j] == o;
                assert(self@.orders[j].key() == key);
            }
        }
        match best {
            Some((count, amount, first)) => {
                assert(is_top_duplicate(self@.orders, best_key));
                Some((self.orders[first].item_name.clone(), count, amount))
            },
            None => None,
        }
    }
}

impl<N: Number> TrackerState<N> {
    /// The state without the orders that are older than `max_age_secs`.
    pub open spec fn after_remove_stale(self, max_age_secs: u64, now: u64) -> TrackerState<N> {
        TrackerState { orders: self.orders.filter(not_older_than(max_age_secs, now)), ..self }
    }

    /// `r` is the stale order on one side that was placed first.
    pub open spec fn is_oldest_stale(
        self,
        r: Option<TrackedBazaarOrder<N>>,
        is_buy_order: bool,
        max_age_secs: u64,
        now: u64,
    ) -> bool {
        let pred = stale_on::<N>(is_buy_order, max_age_secs, now);
        match r {
            Some(order) => exists|i: int|
                #[trigger] is_oldest(self.orders, pred, i) && order@ == self.orders[i],
            None => holds_of_none(self.orders, pred),
        }
    }
}

/// The order placed last is the newest for its item: a fill, a removal or a
/// collection that follows meets it.
pub proof fn placed_order_is_newest<N: Number>(
    s: TrackerState<N>,
    item_name: Seq<char>,
    amount: u64,
    price_per_unit: N,
    is_buy_order: bool,
    now: u64,
)
    ensures
        ({
            let after = s.after_add_order(item_name, amount, price_per_unit, is_buy_order, now);
            &&& after.newest_position(item_name, is_buy_order) == s.orders.len()
            &&& after.fill_position(item_name, is_buy_order) == s.orders.len()
            &&& after.without_order(s.orders.len() as int).orders == s.orders
        }),
{
    let after = s.after_add_order(item_name, amount, price_per_unit, is_buy_order, now);
    assert(after.orders.remove(s.orders.len() as int) =~= s.orders);
}

/// Collecting loses no units: what is collected and what stays in the order
/// make up the order, an order that is collected whole goes, and all other
/// orders stay as they were.
pub proof fn collecting_conserves_units<N: Number>(
    s: TrackerState<N>,
    item_name: Seq<char>,
    i: int,
    claimed: Option<u64>,
)
    requires
        0 <= i < s.orders.len(),
    ensures
        ({
            let order = s.orders[i];
            let collected = collected_amount(order.amount, claimed);
            let after = s.after_collect(item_name, i, collected);
            &&& collected <= order.amount
            &&& order.amount > 0 ==> collected > 0
            &&& collected < order.amount ==> after.orders.len() == s.orders.len()
                && after.orders[i].amount + collected == order.amount && after.orders[i].is_open()
                && forall|j: int|
                0 <= j < s.orders.len() && j != i ==> after.orders[j] == #[trigger] s.orders[j]
            &&& collected == order.amount ==> after.orders == s.orders.remove(i)
        }),
{
}

/// Exactly the orders that are older than the given age go: whatever is removed
/// is older, and nothing older is left.
pub proof fn only_stale_orders_go<N: Number>(
    s: TrackerState<N>,
    max_age_secs: u64,
    now: u64,
    o: OrderRecord<N>,
)
    ensures
        s.after_remove_stale(max_age_secs, now).orders.contains(o) <==> s.orders.contains(o)
            && !o.is_older_than(now, max_age_secs),
{
    let pred = not_older_than::<N>(max_age_secs, now);
    if s.orders.contains(o) && pred(o) {
        let i = choose|i: int| 0 <= i < s.orders.len() && s.orders[i] == o;
        s.orders.lemma_filter_contains(pred, i);
    }
    if s.orders.filter(pred).contains(o) {
        let i = choose|i: int| 0 <= i < s.orders.filter(pred).len() && s.orders.filter(pred)[i] == o;
        s.orders.lemma_filter_pred(pred, i);
        s.orders.lemma_filter_contains_rev(pred, o);
    }
}

} // verus!
