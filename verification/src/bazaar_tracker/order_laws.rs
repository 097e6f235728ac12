//! What placing, filling, collecting and counting orders amounts to.

use vstd::prelude::*;
use vstd::string::*;

use crate::bazaar_tracker::item_key::match_key;
use crate::bazaar_tracker::orders::{
    active_for, capped_amount, collected_amount, earliest, filled_on, holds_of_none, is_oldest, is_top_duplicate,
    last_position_is_last, not_older_than, offered, open_for, ordered_amount, orders_value,
    outranks, sell_group, stale_on,
};
use crate::bazaar_tracker::records::{OrderRecord, PerformanceRecord, TrackedBazaarOrder};
use crate::bazaar_tracker::state::TrackerState;
use crate::listing::{lookup, lookup_after_with_entry};
use crate::number::Number;

verus! {

/// An order is active while it is open or filled, and is for an item when it
/// stands on the side and bears a name of the item. It is worth its price times
/// its units.
pub proof fn orders_are_active_until_collected<N: Number>(
    o: OrderRecord<N>,
    key: Seq<char>,
    side: bool,
)
    ensures
        o.status == "open"@ ==> o.is_open() && o.is_active(),
        o.status == "filled"@ ==> o.is_filled() && o.is_active(),
        o.status != "open"@ && o.status != "filled"@ ==> !o.is_open() && !o.is_filled()
            && !o.is_active(),
        o.is_for(key, side) <==> o.is_buy_order == side && match_key(o.item_name) == key,
        o.value() == o.price_per_unit.spec_times(N::whole(o.amount)),
        active_for::<N>(key, side)(o) <==> (o.status == "open"@ || o.status == "filled"@)
            && o.is_buy_order == side && match_key(o.item_name) == key,
        open_for::<N>(key, side)(o) <==> o.status == "open"@ && o.is_buy_order == side && match_key(
            o.item_name,
        ) == key,
        filled_on::<N>(side)(o) <==> o.status == "filled"@ && o.is_buy_order == side,
        offered::<N>(key)(o) <==> (o.status == "open"@ || o.status == "filled"@) && !o.is_buy_order
            && o.amount > 0 && match_key(o.item_name) == key,
{
}

/// An active order is stale from the given age on; it is dropped only when it is
/// older. An order from the future has no age.
pub proof fn orders_grow_stale<N: Number>(o: OrderRecord<N>, side: bool, max_age: u64, now: u64)
    ensures
        now >= o.placed_at ==> (o.is_stale(now, max_age) <==> now - o.placed_at >= max_age),
        now < o.placed_at ==> (o.is_stale(now, max_age) <==> max_age == 0),
        now >= o.placed_at ==> (o.is_older_than(now, max_age) <==> now - o.placed_at > max_age),
        now < o.placed_at ==> !o.is_older_than(now, max_age),
        stale_on::<N>(side, max_age, now)(o) <==> o.is_buy_order == side && (o.status == "open"@
            || o.status == "filled"@) && o.is_stale(now, max_age),
        not_older_than::<N>(max_age, now)(o) <==> !o.is_older_than(now, max_age),
{
}

/// A placed order is open, as it was placed, behind the earlier orders, and is
/// counted on its side for its item alone.
pub proof fn placed_orders_are_open<N: Number>(
    s: TrackerState<N>,
    item_name: Seq<char>,
    amount: u64,
    price_per_unit: N,
    is_buy_order: bool,
    now: u64,
    other: Seq<char>,
)
    ensures
        ({
            let after = s.after_add_order(item_name, amount, price_per_unit, is_buy_order, now);
            let order = after.orders.last();
            let before = s.performance_of(item_name);
            let p = after.performance_of(item_name);
            &&& after.orders == s.orders.push(order)
            &&& order.item_name == item_name
            &&& order.amount == amount
            &&& order.price_per_unit == price_per_unit
            &&& order.is_buy_order == is_buy_order
            &&& order.status == "open"@
            &&& order.placed_at == now
            &&& is_buy_order ==> p.buy_orders_placed == before.buy_orders_placed.wrapping_add(1)
                && p.sell_orders_placed == before.sell_orders_placed
            &&& !is_buy_order ==> p.sell_orders_placed == before.sell_orders_placed.wrapping_add(1)
                && p.buy_orders_placed == before.buy_orders_placed
            &&& p.cooldown_until == before.cooldown_until
            &&& p.block_reason == before.block_reason
            &&& match_key(other) != match_key(item_name) ==> lookup(
                after.performance,
                match_key(other),
            ) == lookup(s.performance, match_key(other))
            &&& after.lots == s.lots
            &&& after.accounts == s.accounts
            &&& after.planned == s.planned
            &&& after.sell_fills == s.sell_fills
        }),
{
    let p = s.performance_of(item_name);
    let placed = if is_buy_order {
        PerformanceRecord { buy_orders_placed: p.buy_orders_placed.wrapping_add(1), ..p }
    } else {
        PerformanceRecord { sell_orders_placed: p.sell_orders_placed.wrapping_add(1), ..p }
    };
    lookup_after_with_entry(s.performance, match_key(item_name), placed, match_key(other));
    lookup_after_with_entry(s.performance, match_key(item_name), placed, match_key(item_name));
    let after = s.after_add_order(item_name, amount, price_per_unit, is_buy_order, now);
    assert(after.orders =~= s.orders.push(after.orders.last()));
}

/// A fill marks the newest open order of its item and side, and nothing else; it
/// is lost where there is none.
pub proof fn fills_mark_the_newest_open_order<N: Number>(
    s: TrackerState<N>,
    item_name: Seq<char>,
    is_buy_order: bool,
)
    ensures
        ({
            let after = s.after_mark_filled(item_name, is_buy_order);
            let i = s.fill_position(item_name, is_buy_order);
            let key = match_key(item_name);
            &&& -1 <= i < s.orders.len()
            &&& forall|j: int|
                i < j < s.orders.len() ==> {
                    ||| (#[trigger] s.orders[j]).status != "open"@
                    ||| s.orders[j].is_buy_order != is_buy_order
                    ||| match_key(s.orders[j].item_name) != key
                }
            &&& i < 0 ==> after == s
            &&& i >= 0 ==> {
                &&& s.orders[i].status == "open"@
                &&& s.orders[i].is_buy_order == is_buy_order
                &&& match_key(s.orders[i].item_name) == key
                &&& after.orders.len() == s.orders.len()
                &&& after.orders[i].status == "filled"@
                &&& after.orders[i].item_name == s.orders[i].item_name
                &&& after.orders[i].amount == s.orders[i].amount
                &&& after.orders[i].price_per_unit == s.orders[i].price_per_unit
                &&& after.orders[i].is_buy_order == s.orders[i].is_buy_order
                &&& after.orders[i].placed_at == s.orders[i].placed_at
                &&& forall|j: int|
                    0 <= j < s.orders.len() && j != i ==> #[trigger] after.orders[j] == s.orders[j]
            }
        }),
{
    last_position_is_last(s.orders, open_for(match_key(item_name), is_buy_order));
    let i = s.fill_position(item_name, is_buy_order);
    let pred = open_for::<N>(match_key(item_name), is_buy_order);
    assert forall|j: int| i < j < s.orders.len() implies {
        ||| (#[trigger] s.orders[j]).status != "open"@
        ||| s.orders[j].is_buy_order != is_buy_order
        ||| match_key(s.orders[j].item_name) != match_key(item_name)
    } by {
        assert(!pred(s.orders[j]));
    }
}

/// Removal and collection meet the newest active order of the item and side.
pub proof fn the_newest_active_order_is_met<N: Number>(
    s: TrackerState<N>,
    item_name: Seq<char>,
    is_buy_order: bool,
)
    ensures
        ({
            let i = s.newest_position(item_name, is_buy_order);
            let key = match_key(item_name);
            &&& -1 <= i < s.orders.len()
            &&& i >= 0 ==> {
                &&& s.orders[i].status == "open"@ || s.orders[i].status == "filled"@
                &&& s.orders[i].is_buy_order == is_buy_order
                &&& match_key(s.orders[i].item_name) == key
            }
            &&& forall|j: int|
                i < j < s.orders.len() ==> {
                    ||| (#[trigger] s.orders[j]).status != "open"@ && s.orders[j].status
                        != "filled"@
                    ||| s.orders[j].is_buy_order != is_buy_order
                    ||| match_key(s.orders[j].item_name) != key
                }
        }),
{
    last_position_is_last(s.orders, active_for(match_key(item_name), is_buy_order));
    let i = s.newest_position(item_name, is_buy_order);
    let pred = active_for::<N>(match_key(item_name), is_buy_order);
    assert forall|j: int| i < j < s.orders.len() implies {
        ||| (#[trigger] s.orders[j]).status != "open"@ && s.orders[j].status != "filled"@
        ||| s.orders[j].is_buy_order != is_buy_order
        ||| match_key(s.orders[j].item_name) != match_key(item_name)
    } by {
        assert(!pred(s.orders[j]));
    }
}

/// What is collected of an order is what was claimed, at most the order; a claim
/// of nothing, or none, collects it whole.
pub proof fn claims_collect_what_they_say(ordered: u64, claimed: Option<u64>)
    ensures
        claimed is Some && 0 < claimed->0 <= ordered ==> collected_amount(ordered, claimed)
            == claimed->0,
        claimed is Some && claimed->0 > ordered ==> collected_amount(ordered, claimed) == ordered,
        claimed is Some && claimed->0 == 0 ==> collected_amount(ordered, claimed) == ordered,
        claimed is None ==> collected_amount(ordered, claimed) == ordered,
{
}

/// Collecting a sell adds its units to the fills that are remembered for the
/// item; collecting a buy, or nothing, adds none. The rest of a partly collected
/// order is as it was but for its amount and that it is open.
pub proof fn collected_sells_are_remembered<N: Number>(
    s: TrackerState<N>,
    item_name: Seq<char>,
    i: int,
    collected: u64,
    other: Seq<char>,
)
    requires
        0 <= i < s.orders.len(),
        collected <= s.orders[i].amount,
    ensures
        ({
            let after = s.after_collect(item_name, i, collected);
            let key = match_key(item_name);
            let o = s.orders[i];
            let before = match lookup(s.sell_fills, key) {
                Some(n) => n,
                None => 0,
            };
            &&& !o.is_buy_order && collected > 0 ==> lookup(after.sell_fills, key) == Some(
                before.wrapping_add(collected),
            )
            &&& o.is_buy_order || collected == 0 ==> after.sell_fills == s.sell_fills
            &&& other != key ==> lookup(after.sell_fills, other) == lookup(s.sell_fills, other)
            &&& collected < o.amount ==> {
                &&& after.orders[i].amount == o.amount - collected
                &&& after.orders[i].status == "open"@
                &&& after.orders[i].item_name == o.item_name
                &&& after.orders[i].price_per_unit == o.price_per_unit
                &&& after.orders[i].is_buy_order == o.is_buy_order
                &&& after.orders[i].placed_at == o.placed_at
            }
            &&& after.lots == s.lots
            &&& after.accounts == s.accounts
            &&& after.performance == s.performance
            &&& after.planned == s.planned
        }),
{
    let key = match_key(item_name);
    let before = match lookup(s.sell_fills, key) {
        Some(n) => n,
        None => 0,
    };
    lookup_after_with_entry(s.sell_fills, key, before.wrapping_add(collected), other);
}

/// One order more adds its value and its units to the others.
pub proof fn orders_add_up<N: Number>(orders: Seq<OrderRecord<N>>, more: OrderRecord<N>)
    ensures
        orders_value(Seq::<OrderRecord<N>>::empty()) == N::whole(0),
        orders_value(orders.push(more)) == orders_value(orders).spec_plus(
            more.price_per_unit.spec_times(N::whole(more.amount)),
        ),
        ordered_amount(Seq::<OrderRecord<N>>::empty()) == 0,
        ordered_amount(orders.push(more)) == ordered_amount(orders).wrapping_add(more.amount),
        capped_amount(Seq::<OrderRecord<N>>::empty()) == 0,
        capped_amount(orders.push(more)) == capped_amount(orders).saturating_add(more.amount),
{
    assert(orders.push(more).drop_last() =~= orders);
}

/// The earliest order of a group is one of it, none was placed before it, and
/// none behind it was placed at the same time.
pub proof fn the_earliest_was_placed_first<N>(group: Seq<OrderRecord<N>>) -> (first: int)
    requires
        group.len() > 0,
    ensures
        0 <= first < group.len(),
        earliest(group) == group[first],
        forall|j: int|
            0 <= j < group.len() ==> (#[trigger] group[j]).placed_at >= group[first].placed_at,
        forall|j: int|
            first < j < group.len() ==> (#[trigger] group[j]).placed_at > group[first].placed_at,
    decreases group.len(),
{
    if group.len() == 1 {
        0
    } else {
        let rest = group.drop_last();
        let first = the_earliest_was_placed_first(rest);
        assert(rest[first] == group[first]);
        assert forall|j: int| 0 <= j < rest.len() implies (#[trigger] group[j]).placed_at
            >= group[first].placed_at by {
            assert(rest[j] == group[j]);
        }
        assert forall|j: int| first < j < rest.len() implies (#[trigger] group[j]).placed_at
            > group[first].placed_at by {
            assert(rest[j] == group[j]);
        }
        if group.last().placed_at <= group[first].placed_at {
            group.len() - 1
        } else {
            first
        }
    }
}

/// Of two groups of sell orders the one with more orders comes first, then the
/// one with more units, then the one that was started earlier.
pub proof fn larger_groups_come_first<N>(a: Seq<OrderRecord<N>>, b: Seq<OrderRecord<N>>)
    ensures
        a.len() > b.len() ==> outranks(a, b),
        a.len() < b.len() ==> !outranks(a, b),
        a.len() == b.len() && capped_amount(a) > capped_amount(b) ==> outranks(a, b),
        a.len() == b.len() && capped_amount(a) < capped_amount(b) ==> !outranks(a, b),
        a.len() == b.len() && capped_amount(a) == capped_amount(b) ==> (outranks(a, b) <==> earliest(
            a,
        ).placed_at < earliest(b).placed_at),
{
}

/// The target among items that are offered more than once is offered by at least
/// two active orders, and by no fewer than any other item.
pub proof fn the_target_is_offered_most<N>(
    orders: Seq<OrderRecord<N>>,
    key: Seq<char>,
    other: Seq<char>,
)
    requires
        is_top_duplicate(orders, key),
    ensures
        orders.filter(offered(key)).len() >= 2,
        orders.filter(offered(other)).len() <= orders.filter(offered(key)).len(),
{
    assert(sell_group(orders, other) == orders.filter(offered(other)));
    assert(sell_group(orders, key) == orders.filter(offered(key)));
}

/// The oldest of some orders is one of them, and of those placed at the same
/// time the first.
pub proof fn the_oldest_was_placed_first<N>(
    orders: Seq<OrderRecord<N>>,
    pred: spec_fn(OrderRecord<N>) -> bool,
    i: int,
    j: int,
)
    requires
        is_oldest(orders, pred, i),
        0 <= j < orders.len(),
        pred(orders[j]),
    ensures
        0 <= i < orders.len(),
        pred(orders[i]),
        orders[i].placed_at <= orders[j].placed_at,
        orders[i].placed_at == orders[j].placed_at ==> i <= j,
{
}

/// A stale order that is found stands on its side, is active and stale, and no
/// such order was placed before it; where none is found there is none.
pub proof fn the_oldest_stale_order_is_found<N: Number>(
    s: TrackerState<N>,
    r: Option<TrackedBazaarOrder<N>>,
    side: bool,
    max_age: u64,
    now: u64,
    j: int,
)
    requires
        s.is_oldest_stale(r, side, max_age, now),
        0 <= j < s.orders.len(),
        s.orders[j].is_buy_order == side,
        s.orders[j].status == "open"@ || s.orders[j].status == "filled"@,
        now >= s.orders[j].placed_at + max_age,
    ensures
        r is Some,
        ({
            let found = r->0@;
            &&& s.orders.contains(found)
            &&& found.is_buy_order == side
            &&& found.status == "open"@ || found.status == "filled"@
            &&& found.is_stale(now, max_age)
            &&& found.placed_at <= s.orders[j].placed_at
        }),
{
    let pred = stale_on::<N>(side, max_age, now);
    assert(pred(s.orders[j]));
    if r is None {
        assert(holds_of_none(s.orders, pred));
        assert(!pred(s.orders[j]));
    } else {
        let i = choose|i: int|
            #[trigger] is_oldest(s.orders, pred, i) && r->0@ == s.orders[i];
        assert(pred(s.orders[i]));
        assert(s.orders.contains(r->0@));
    }
}

/// Nothing is found where no order on the side is stale.
pub proof fn fresh_orders_are_not_found<N: Number>(
    s: TrackerState<N>,
    r: Option<TrackedBazaarOrder<N>>,
    side: bool,
    max_age: u64,
    now: u64,
)
    requires
        s.is_oldest_stale(r, side, max_age, now),
        forall|j: int|
            0 <= j < s.orders.len() && (#[trigger] s.orders[j]).is_buy_order == side ==> now
                < s.orders[j].placed_at + max_age,
        max_age > 0,
    ensures
        r is None,
{
    let pred = stale_on::<N>(side, max_age, now);
    if r is Some {
        let i = choose|i: int|
            #[trigger] is_oldest(s.orders, pred, i) && r->0@ == s.orders[i];
        assert(pred(s.orders[i]));
    }
}

/// The target among items that are offered more than once is the one with the
/// most orders, then the most units, then the earliest start: an item is the
/// target exactly when it is offered more than once and no such item is ahead of
/// it.
pub proof fn the_target_is_ahead_of_all<N>(orders: Seq<OrderRecord<N>>, key: Seq<char>)
    ensures
        is_top_duplicate(orders, key) <==> {
            let group = orders.filter(offered(key));
            &&& group.len() >= 2
            &&& forall|other: Seq<char>|
                {
                    let rival = #[trigger] sell_group(orders, other);
                    rival.len() >= 2 ==> {
                        ||| rival.len() < group.len()
                        ||| rival.len() == group.len() && capped_amount(rival) < capped_amount(group)
                        ||| rival.len() == group.len() && capped_amount(rival) == capped_amount(
                            group,
                        ) && earliest(rival).placed_at >= earliest(group).placed_at
                    }
                }
        },
{
    assert(sell_group(orders, key) == orders.filter(offered(key)));
}

} // verus!
