//! What reconciling with the bazaar achieves.

use vstd::prelude::*;
use vstd::string::*;

use crate::bazaar_tracker::item_key::match_key;
use crate::bazaar_tracker::lots::total_amount;
use crate::bazaar_tracker::reconcile::{
    add_row, add_rows, add_untracked, after_draw, cleared, count_for, drawn, holds_units, is_backed,
    is_first_row, is_row_for, matched, reconcile_order, reconcile_orders, rows_for, rows_of_prefix, shown_name, shown_name_has_key, unit_counts,
    Reconciled,
};
use crate::bazaar_tracker::records::{BuyCostLot, OrderRecord};
use crate::bazaar_tracker::state::TrackerState;
use crate::listing::{lookup, Entries};
use crate::number::Number;

verus! {

/// The units listed under `key`.
pub open spec fn units_of(s: Entries<u64>, key: Seq<char>) -> u64 {
    match lookup(s, key) {
        Some(units) => units,
        None => 0,
    }
}

/// Every row for an item shows an amount.
pub open spec fn rows_have_amounts<N>(
    rows: Seq<(String, bool, u64, N)>,
    key: Seq<char>,
    side: bool,
) -> bool {
    forall|i: int|
        0 <= i < rows_for(rows, key, side).len() ==> (#[trigger] rows_for(rows, key, side)[i]).0 > 0
}

/// The larger of two counts.
pub open spec fn most(a: nat, b: nat) -> nat {
    if a >= b {
        a
    } else {
        b
    }
}

proof fn count_after_push<N>(
    orders: Seq<OrderRecord<N>>,
    o: OrderRecord<N>,
    key: Seq<char>,
    side: bool,
)
    ensures
        count_for(orders.push(o), key, side) == count_for(orders, key, side) + (if o.is_for(
            key,
            side,
        ) {
            1nat
        } else {
            0nat
        }),
{
    reveal(Seq::filter);
    assert(orders.push(o).drop_last() =~= orders);
}

/// Tracked orders stay up to the number of rows; backed sell orders all stay.
proof fn count_kept<N: Number>(
    start: Reconciled<N>,
    orders: Seq<OrderRecord<N>>,
    rows: Seq<(String, bool, u64, N)>,
    lots: Entries<Seq<BuyCostLot<N>>>,
    now: u64,
    key: Seq<char>,
    side: bool,
)
    requires
        start.orders.len() == 0,
    ensures
        ({
            let kept = count_for(
                reconcile_orders(start, orders, rows, lots, now).orders,
                key,
                side,
            );
            &&& (side || !is_backed(lots, key)) ==> kept <= rows_for(rows, key, side).len()
            &&& (!side && is_backed(lots, key)) ==> kept == count_for(orders, key, side)
            &&& kept <= count_for(orders, key, side)
        }),
    decreases orders.len(),
{
    reveal(Seq::filter);
    if orders.len() > 0 {
        let before = reconcile_orders(start, orders.drop_last(), rows, lots, now);
        let o = orders.last();
        count_kept(start, orders.drop_last(), rows, lots, now, key, side);
        let after = reconcile_order(before, o, rows, lots, now);
        count_after_push(orders.drop_last(), o, key, side);
        assert(orders.drop_last().push(o) =~= orders);
        if after.orders.len() > before.orders.len() {
            let last = after.orders.last();
            assert(after.orders =~= before.orders.push(last));
            assert(last.item_name == o.item_name && last.is_buy_order == o.is_buy_order);
            count_after_push(before.orders, last, key, side);
        } else {
            assert(after.orders =~= before.orders);
        }
    }
}

/// Every row for a sell order shows an amount.
proof fn sell_rows_have_amounts<N>(rows: Seq<(String, bool, u64, N)>, key: Seq<char>)
    ensures
        rows_have_amounts(rows, key, false),
    decreases rows.len(),
{
    if rows.len() > 0 {
        let rest = rows.drop_last();
        sell_rows_have_amounts(rest, key);
        assert forall|i: int| 0 <= i < rows_for(rows, key, false).len() implies (
        #[trigger] rows_for(rows, key, false)[i]).0 > 0 by {
            if i < rows_for(rest, key, false).len() {
                assert(rows_for(rest, key, false)[i].0 > 0);
            }
        }
    }
}

/// Drawing takes no units where there are none, and never adds any.
proof fn draw_keeps_nothing(s: Entries<u64>, other: Seq<char>, amount: u64, key: Seq<char>)
    requires
        units_of(s, key) == 0,
    ensures
        units_of(after_draw(s, other, amount), key) == 0,
        units_of(cleared(s, other), key) == 0,
        drawn(s, key, amount) == 0,
{
    match lookup(s, other) {
        Some(units) => {
            crate::listing::lookup_after_with_entry(
                s,
                other,
                (units - drawn(s, other, amount)) as u64,
                key,
            );
            crate::listing::lookup_after_with_entry(s, other, 0, key);
        },
        None => {},
    }
}

proof fn no_fills_while_reconciling<N: Number>(
    start: Reconciled<N>,
    orders: Seq<OrderRecord<N>>,
    rows: Seq<(String, bool, u64, N)>,
    lots: Entries<Seq<BuyCostLot<N>>>,
    now: u64,
    key: Seq<char>,
)
    requires
        units_of(start.sold, key) == 0,
    ensures
        units_of(reconcile_orders(start, orders, rows, lots, now).sold, key) == 0,
    decreases orders.len(),
{
    if orders.len() > 0 {
        let before = reconcile_orders(start, orders.drop_last(), rows, lots, now);
        let o = orders.last();
        no_fills_while_reconciling(start, orders.drop_last(), rows, lots, now, key);
        let shown = rows_for(rows, o.key(), o.is_buy_order);
        let kept = count_for(before.orders, o.key(), o.is_buy_order);
        if kept < shown.len() {
            let row = shown[kept as int];
            if row.0 > o.amount {
                draw_keeps_nothing(before.sold, o.key(), (row.0 - o.amount) as u64, key);
            } else {
                draw_keeps_nothing(before.sold, o.key(), row.0, key);
            }
        }
    }
}

/// No row for an item is covered by fills that were collected.
spec fn is_uncovered<N>(r: Reconciled<N>, key: Seq<char>, side: bool) -> bool {
    side || units_of(r.sold, key) == 0
}

/// Adding rows of an item adds none for other items, and one for each row with
/// an amount that is not covered.
proof fn count_added<N: Number>(
    r: Reconciled<N>,
    rows: Seq<(String, bool, u64, N)>,
    group: Seq<char>,
    group_side: bool,
    start: nat,
    end: nat,
    now: u64,
    key: Seq<char>,
    side: bool,
)
    requires
        end <= rows_for(rows, group, group_side).len(),
        rows_for(rows, group, group_side).len() > 0,
    ensures
        ({
            let before = count_for(r.orders, key, side);
            let all = add_rows(r, rows, group, group_side, start, end, now);
            let after = count_for(all.orders, key, side);
            let added = if start < end {
                end - start
            } else {
                0
            };
            &&& !(group == key && group_side == side) ==> after == before
            &&& before <= after <= before + added
            &&& group == key && group_side == side && is_uncovered(r, key, side)
                && rows_have_amounts(rows, key, side) ==> after == before + added
            &&& is_uncovered(r, key, side) ==> is_uncovered(all, key, side)
        }),
    decreases end,
{
    if start < end {
        count_added(r, rows, group, group_side, start, (end - 1) as nat, now, key, side);
        let before = add_rows(r, rows, group, group_side, start, (end - 1) as nat, now);
        let after = add_rows(r, rows, group, group_side, start, end, now);
        let row = rows_for(rows, group, group_side)[end - 1];
        shown_name_has_key(rows, group, group_side);
        if units_of(before.sold, key) == 0 {
            draw_keeps_nothing(before.sold, group, row.0, key);
        }
        if after.orders.len() > before.orders.len() {
            let last = after.orders.last();
            assert(after.orders =~= before.orders.push(last));
            count_after_push(before.orders, last, key, side);
        } else {
            assert(after.orders =~= before.orders);
        }
    }
}

/// With the untracked rows there are as many orders as were kept, or one for
/// each row with an amount that is not covered.
proof fn count_with_untracked<N: Number>(
    r: Reconciled<N>,
    rows: Seq<(String, bool, u64, N)>,
    n: nat,
    now: u64,
    key: Seq<char>,
    side: bool,
)
    requires
        n <= rows.len(),
    ensures
        ({
            let kept = count_for(r.orders, key, side);
            let shown = rows_for(rows, key, side).len();
            let all = add_untracked(r, r.orders, rows, n, now);
            let count = count_for(all.orders, key, side);
            let met = rows_for(rows.take(n as int), key, side).len() > 0;
            &&& kept <= count <= most(kept, shown)
            &&& !met ==> count == kept
            &&& met && is_uncovered(r, key, side) && rows_have_amounts(rows, key, side) ==> count
                == most(kept, shown)
            &&& is_uncovered(r, key, side) ==> is_uncovered(all, key, side)
        }),
    decreases n,
{
    if n > 0 {
        count_with_untracked(r, rows, (n - 1) as nat, now, key, side);
        let before = add_untracked(r, r.orders, rows, (n - 1) as nat, now);
        let group = match_key(rows[n - 1].0@);
        let group_side = rows[n - 1].1;
        assert(rows.take(n as int).drop_last() =~= rows.take(n - 1));
        assert(rows.take(n as int).last() == rows[n - 1]);
        if is_first_row(rows, n - 1) {
            rows_of_prefix(rows, n as int, group, group_side);
            count_added(
                before,
                rows,
                group,
                group_side,
                count_for(r.orders, group, group_side),
                rows_for(rows, group, group_side).len(),
                now,
                key,
                side,
            );
        }
    } else {
        assert(rows.take(0) =~= Seq::empty());
    }
}

/// The units of an item are those of its lots.
proof fn units_of_lots<N>(lots: Entries<Seq<BuyCostLot<N>>>, key: Seq<char>)
    ensures
        units_of(unit_counts(lots), key) == (match lookup(lots, key) {
            Some(held) => total_amount(held),
            None => 0,
        }),
        units_of(unit_counts(lots), key) > 0 <==> is_backed(lots, key),
{
    crate::listing::slot_is_first(lots, key);
    let counts = unit_counts(lots);
    let i = crate::listing::slot(lots, key);
    assert forall|j: int| 0 <= j < i implies #[trigger] counts[j].0 != key by {
        assert(lots[j].0 != key);
    }
    crate::listing::slot_is(counts, key, i as int);
}

/// No more orders are tracked for an item than the bazaar shows. An item that
/// the bazaar does not show has no order any more. Only sell orders of which
/// cost lots are held are exempt.
pub proof fn no_more_orders_than_rows<N: Number>(
    s: TrackerState<N>,
    rows: Seq<(String, bool, u64, N)>,
    now: u64,
    key: Seq<char>,
    side: bool,
)
    requires
        side || !is_backed(s.lots, key),
    ensures
        count_for(s.after_reconcile(rows, now).orders, key, side) <= rows_for(
            rows,
            key,
            side,
        ).len(),
{
    let start = Reconciled {
        orders: Seq::<OrderRecord<N>>::empty(),
        bought: unit_counts(s.lots),
        sold: s.sell_fills,
    };
    count_kept(start, s.orders, rows, s.lots, now, key, side);
    count_with_untracked(s.reconciled_orders(rows, now), rows, rows.len(), now, key, side);
}

/// Sell orders of which cost lots are held stay tracked, whatever the bazaar
/// shows.
pub proof fn backed_sells_stay<N: Number>(
    s: TrackerState<N>,
    rows: Seq<(String, bool, u64, N)>,
    now: u64,
    key: Seq<char>,
)
    requires
        is_backed(s.lots, key),
    ensures
        count_for(s.after_reconcile(rows, now).orders, key, false) >= count_for(
            s.orders,
            key,
            false,
        ),
{
    let start = Reconciled {
        orders: Seq::<OrderRecord<N>>::empty(),
        bought: unit_counts(s.lots),
        sold: s.sell_fills,
    };
    count_kept(start, s.orders, rows, s.lots, now, key, false);
    count_with_untracked(s.reconciled_orders(rows, now), rows, rows.len(), now, key, false);
}

/// Orders that the bazaar shows and that were not tracked become tracked. For
/// buy orders that is so whatever is held of the item, as long as every row has
/// an amount; for sell orders, which all have one, as long as nothing of the item
/// was collected that may still be shown. There are as many orders as rows
/// afterwards; where sell orders stay because cost lots are held, there are as
/// many as before if that is more.
pub proof fn shown_orders_are_tracked<N: Number>(
    s: TrackerState<N>,
    rows: Seq<(String, bool, u64, N)>,
    now: u64,
    key: Seq<char>,
    side: bool,
)
    requires
        side ==> rows_have_amounts(rows, key, side),
        !side ==> units_of(s.sell_fills, key) == 0,
    ensures
        ({
            let shown = rows_for(rows, key, side).len();
            let after = count_for(s.after_reconcile(rows, now).orders, key, side);
            &&& (side || !is_backed(s.lots, key)) ==> after == shown
            &&& (!side && is_backed(s.lots, key)) ==> after == most(
                count_for(s.orders, key, side),
                shown,
            )
        }),
{
    let start = Reconciled {
        orders: Seq::<OrderRecord<N>>::empty(),
        bought: unit_counts(s.lots),
        sold: s.sell_fills,
    };
    if !side {
        sell_rows_have_amounts(rows, key);
        no_fills_while_reconciling(start, s.orders, rows, s.lots, now, key);
    }
    count_kept(start, s.orders, rows, s.lots, now, key, side);
    count_with_untracked(s.reconciled_orders(rows, now), rows, rows.len(), now, key, side);
    assert(rows.take(rows.len() as int) =~= rows);
}

proof fn add_row_of_single<N: Number>(
    s: TrackerState<N>,
    rows: Seq<(String, bool, u64, N)>,
    now: u64,
)
    requires
        s.orders.len() == 0,
        rows.len() == 1,
        is_row_for(rows[0], match_key(rows[0].0@), rows[0].1),
    ensures
        s.after_reconcile(rows, now).orders == add_row(
            Reconciled {
                orders: Seq::empty(),
                bought: unit_counts(s.lots),
                sold: s.sell_fills,
            },
            rows[0].0@,
            rows[0].1,
            (rows[0].2, rows[0].3),
            now,
        ).orders,
{
    reveal(Seq::filter);
    let key = match_key(rows[0].0@);
    let side = rows[0].1;
    let kept = s.reconciled_orders(rows, now);
    assert(rows.drop_last() =~= Seq::empty());
    assert(rows.last() == rows[0]);
    assert(rows.take(0) =~= Seq::empty());
    assert(rows_for(rows.drop_last(), key, side) =~= Seq::empty());
    assert(rows_for(rows, key, side) =~= seq![(rows[0].2, rows[0].3)]);
    assert(count_for(kept.orders, key, side) == 0);
    assert(add_untracked(kept, kept.orders, rows, 0, now) == kept);
    assert(is_first_row(rows, 0));
    assert(add_rows(kept, rows, key, side, 0, 0, now) == kept);
    assert(add_untracked(kept, kept.orders, rows, 1, now) == add_rows(
        kept,
        rows,
        key,
        side,
        0,
        1,
        now,
    ));
}

/// A buy order that is shown while nothing is tracked becomes an order of its
/// item and price. Units of the item that are held already stay off it, unless
/// they would cover it whole.
pub proof fn shown_buy_is_added<N: Number>(
    s: TrackerState<N>,
    rows: Seq<(String, bool, u64, N)>,
    now: u64,
)
    requires
        s.orders.len() == 0,
        rows.len() == 1,
        rows[0].1,
        rows[0].2 > 0,
    ensures
        ({
            let after = s.after_reconcile(rows, now).orders;
            let held = total_amount(s.lots_of(rows[0].0@));
            &&& after.len() == 1
            &&& after[0].item_name == rows[0].0@
            &&& after[0].is_buy_order
            &&& after[0].price_per_unit == rows[0].3
            &&& after[0].is_open()
            &&& after[0].placed_at == now
            &&& after[0].amount == (if held < rows[0].2 {
                rows[0].2 - held
            } else {
                rows[0].2 as int
            })
        }),
{
    add_row_of_single(s, rows, now);
    units_of_lots(s.lots, match_key(rows[0].0@));
}

/// A sell order that is shown while nothing is tracked becomes an order of what
/// exceeds the fills that were collected; one that was collected whole is not
/// tracked again.
pub proof fn collected_sell_is_not_added<N: Number>(
    s: TrackerState<N>,
    rows: Seq<(String, bool, u64, N)>,
    now: u64,
)
    requires
        s.orders.len() == 0,
        rows.len() == 1,
        !rows[0].1,
        rows[0].2 > 0,
    ensures
        ({
            let after = s.after_reconcile(rows, now).orders;
            let collected = units_of(s.sell_fills, match_key(rows[0].0@));
            &&& collected >= rows[0].2 ==> after.len() == 0
            &&& collected < rows[0].2 ==> after.len() == 1 && after[0].item_name == rows[0].0@
                && !after[0].is_buy_order && after[0].price_per_unit == rows[0].3
                && after[0].is_open() && after[0].placed_at == now && after[0].amount == rows[0].2
                - collected
        }),
{
    add_row_of_single(s, rows, now);
}

/// What reconciling makes of a single tracked order that meets a single row.
proof fn single_order_meets_single_row<N: Number>(
    s: TrackerState<N>,
    rows: Seq<(String, bool, u64, N)>,
    now: u64,
)
    requires
        s.orders.len() == 1,
        rows.len() == 1,
        is_row_for(rows[0], s.orders[0].key(), s.orders[0].is_buy_order),
    ensures
        s.after_reconcile(rows, now).orders == matched(
            Reconciled {
                orders: Seq::empty(),
                bought: unit_counts(s.lots),
                sold: s.sell_fills,
            },
            s.orders[0],
            (rows[0].2, rows[0].3),
            now,
        ).orders,
{
    reveal(Seq::filter);
    let o = s.orders[0];
    let key = o.key();
    let side = o.is_buy_order;
    let start = Reconciled {
        orders: Seq::<OrderRecord<N>>::empty(),
        bought: unit_counts(s.lots),
        sold: s.sell_fills,
    };
    assert(rows.drop_last() =~= Seq::empty());
    assert(rows.last() == rows[0]);
    assert(rows_for(rows.drop_last(), key, side) =~= Seq::empty());
    assert(rows_for(rows, key, side) =~= seq![(rows[0].2, rows[0].3)]);
    assert(s.orders.drop_last() =~= Seq::empty());
    assert(s.orders.last() == o);
    assert(reconcile_orders(start, s.orders.drop_last(), rows, s.lots, now) == start);
    assert(count_for(start.orders, key, side) == 0);
    let kept = s.reconciled_orders(rows, now);
    assert(kept == matched(start, o, (rows[0].2, rows[0].3), now));
    let last = kept.orders.last();
    assert(kept.orders =~= start.orders.push(last));
    count_after_push(start.orders, last, key, side);
    assert(add_untracked(kept, kept.orders, rows, 0, now) == kept);
    assert(add_rows(kept, rows, key, side, 1, 1, now) == kept);
}

/// What was collected of a buy order is not ordered again: while the bazaar
/// still shows the whole order, the units of which lots are held stay off it.
pub proof fn collected_buys_are_not_restored<N: Number>(
    s: TrackerState<N>,
    rows: Seq<(String, bool, u64, N)>,
    now: u64,
)
    requires
        s.orders.len() == 1,
        s.orders[0].is_buy_order,
        rows.len() == 1,
        is_row_for(rows[0], s.orders[0].key(), true),
        total_amount(s.lots_of(s.orders[0].item_name)) < rows[0].2,
    ensures
        ({
            let after = s.after_reconcile(rows, now).orders;
            &&& after.len() == 1
            &&& after[0].item_name == s.orders[0].item_name
            &&& after[0].amount == rows[0].2 - total_amount(s.lots_of(s.orders[0].item_name))
        }),
{
    single_order_meets_single_row(s, rows, now);
    units_of_lots(s.lots, s.orders[0].key());
}

/// What was collected of a sell order is not offered again: while the bazaar
/// still shows the whole order, the tracked rest stays as it is.
pub proof fn collected_sells_are_not_restored<N: Number>(
    s: TrackerState<N>,
    rows: Seq<(String, bool, u64, N)>,
    now: u64,
)
    requires
        s.orders.len() == 1,
        !s.orders[0].is_buy_order,
        s.orders[0].amount > 0,
        rows.len() == 1,
        is_row_for(rows[0], s.orders[0].key(), false),
        rows[0].2 == s.orders[0].amount + units_of(s.sell_fills, s.orders[0].key()),
    ensures
        ({
            let after = s.after_reconcile(rows, now).orders;
            &&& after.len() == 1
            &&& after[0].item_name == s.orders[0].item_name
            &&& after[0].amount == s.orders[0].amount
        }),
{
    single_order_meets_single_row(s, rows, now);
}

/// No item has more orders than rows, but for sell orders of which cost lots are
/// held.
pub open spec fn every_order_may_stay<N>(
    orders: Seq<OrderRecord<N>>,
    rows: Seq<(String, bool, u64, N)>,
    lots: Entries<Seq<BuyCostLot<N>>>,
) -> bool {
    forall|key: Seq<char>, side: bool|
        side || !is_backed(lots, key) ==> #[trigger] count_for(orders, key, side) <= rows_for(
            rows,
            key,
            side,
        ).len()
}

proof fn all_orders_stay<N: Number>(
    start: Reconciled<N>,
    orders: Seq<OrderRecord<N>>,
    rows: Seq<(String, bool, u64, N)>,
    lots: Entries<Seq<BuyCostLot<N>>>,
    now: u64,
)
    requires
        start.orders.len() == 0,
        every_order_may_stay(orders, rows, lots),
    ensures
        ({
            let kept = reconcile_orders(start, orders, rows, lots, now).orders;
            &&& kept.len() == orders.len()
            &&& forall|key: Seq<char>, side: bool| #[trigger]
                count_for(kept, key, side) == count_for(orders, key, side)
        }),
    decreases orders.len(),
{
    reveal(Seq::filter);
    if orders.len() > 0 {
        let rest = orders.drop_last();
        let o = orders.last();
        assert(rest.push(o) =~= orders);
        assert forall|key: Seq<char>, side: bool| side || !is_backed(lots, key) implies #[trigger]
            count_for(rest, key, side) <= rows_for(rows, key, side).len() by {
            count_after_push(rest, o, key, side);
            assert(count_for(orders, key, side) <= rows_for(rows, key, side).len());
        }
        all_orders_stay(start, rest, rows, lots, now);
        let before = reconcile_orders(start, rest, rows, lots, now);
        let after = reconcile_orders(start, orders, rows, lots, now);
        count_after_push(rest, o, o.key(), o.is_buy_order);
        if o.is_buy_order || !is_backed(lots, o.key()) {
            assert(count_for(orders, o.key(), o.is_buy_order) <= rows_for(
                rows,
                o.key(),
                o.is_buy_order,
            ).len());
            assert(count_for(before.orders, o.key(), o.is_buy_order) < rows_for(
                rows,
                o.key(),
                o.is_buy_order,
            ).len());
        }
        let last = after.orders.last();
        assert(after.orders =~= before.orders.push(last));
        assert forall|key: Seq<char>, side: bool| #[trigger]
            count_for(after.orders, key, side) == count_for(orders, key, side) by {
            count_after_push(before.orders, last, key, side);
            count_after_push(rest, o, key, side);
            assert(count_for(before.orders, key, side) == count_for(rest, key, side));
        }
    }
}

/// An order with a row of its own stays, and so does a sell order of which cost
/// lots are held: where there are no others, reconciling removes nothing.
pub proof fn orders_with_rows_stay<N: Number>(
    s: TrackerState<N>,
    rows: Seq<(String, bool, u64, N)>,
    now: u64,
)
    requires
        every_order_may_stay(s.orders, rows, s.lots),
    ensures
        s.reconciled_orders(rows, now).orders.len() == s.orders.len(),
{
    all_orders_stay(
        Reconciled {
            orders: Seq::<OrderRecord<N>>::empty(),
            bought: unit_counts(s.lots),
            sold: s.sell_fills,
        },
        s.orders,
        rows,
        s.lots,
        now,
    );
}

/// Reconciling again with what the bazaar showed before removes nothing.
pub proof fn reconciling_again_removes_nothing<N: Number>(
    s: TrackerState<N>,
    rows: Seq<(String, bool, u64, N)>,
    now: u64,
    later: u64,
)
    ensures
        ({
            let once = s.after_reconcile(rows, now);
            once.reconciled_orders(rows, later).orders.len() == once.orders.len()
        }),
{
    let once = s.after_reconcile(rows, now);
    assert forall|key: Seq<char>, side: bool| side || !is_backed(once.lots, key) implies #[trigger]
        count_for(once.orders, key, side) <= rows_for(rows, key, side).len() by {
        no_more_orders_than_rows(s, rows, now, key, side);
    }
    orders_with_rows_stay(once, rows, later);
}

/// A row counts for an item on a side when it bears a name of the item and
/// stands on that side; a sell row without an amount counts for nothing.
pub proof fn rows_count_for_their_item<N>(
    row: (String, bool, u64, N),
    key: Seq<char>,
    side: bool,
)
    ensures
        is_row_for(row, key, side) ==> match_key(row.0@) == key && row.1 == side,
        match_key(row.0@) == key && row.1 == side && row.2 > 0 ==> is_row_for(row, key, side),
        match_key(row.0@) == key && row.1 && side ==> is_row_for(row, key, side),
        !row.1 && row.2 == 0 ==> !is_row_for(row, key, side),
{
}

/// After reconciling, a sell order whose row shows no more than is tracked has
/// the amount of that row; where the row shows more, what was collected of it
/// and may still be shown stays off.
pub proof fn shown_sells_have_their_rows_amount<N: Number>(
    s: TrackerState<N>,
    rows: Seq<(String, bool, u64, N)>,
    now: u64,
)
    requires
        s.orders.len() == 1,
        rows.len() == 1,
        !s.orders[0].is_buy_order,
        is_row_for(rows[0], s.orders[0].key(), false),
    ensures
        ({
            let after = s.after_reconcile(rows, now).orders;
            let shown = rows[0].2;
            let o = s.orders[0];
            let fills = units_of(s.sell_fills, o.key());
            &&& after.len() == 1
            &&& 0 < shown <= o.amount ==> after[0].amount == shown
            &&& shown > o.amount && fills < shown - o.amount ==> after[0].amount == shown - fills
            &&& shown > o.amount && fills >= shown - o.amount && o.amount > 0 ==> after[0].amount
                == o.amount
        }),
{
    single_order_meets_single_row(s, rows, now);
}

/// After reconciling, a buy order has the amount of its row less the units of
/// which lots are held; where the lots cover the row the order keeps its amount.
pub proof fn shown_buys_have_their_rows_amount<N: Number>(
    s: TrackerState<N>,
    rows: Seq<(String, bool, u64, N)>,
    now: u64,
)
    requires
        s.orders.len() == 1,
        rows.len() == 1,
        s.orders[0].is_buy_order,
        is_row_for(rows[0], s.orders[0].key(), true),
    ensures
        ({
            let after = s.after_reconcile(rows, now).orders;
            let held = total_amount(s.lots_of(s.orders[0].item_name));
            &&& after.len() == 1
            &&& held < rows[0].2 ==> after[0].amount == rows[0].2 - held
            &&& held >= rows[0].2 ==> after[0].amount == s.orders[0].amount
        }),
{
    single_order_meets_single_row(s, rows, now);
    units_of_lots(s.lots, s.orders[0].key());
}

/// After reconciling, an order has the price of its row, unless the row shows
/// none. It counts as placed anew where the price moved by more than a hundredth
/// of a coin, and keeps its time, name, side and status otherwise.
pub proof fn shown_orders_have_their_rows_price<N: Number>(
    s: TrackerState<N>,
    rows: Seq<(String, bool, u64, N)>,
    now: u64,
)
    requires
        s.orders.len() == 1,
        rows.len() == 1,
        is_row_for(rows[0], s.orders[0].key(), s.orders[0].is_buy_order),
    ensures
        ({
            let after = s.after_reconcile(rows, now).orders;
            let o = s.orders[0];
            let price = rows[0].3;
            let moved = N::whole(1).spec_over(N::whole(100)).spec_below(
                o.price_per_unit.spec_minus(price).spec_magnitude(),
            );
            &&& after.len() == 1
            &&& after[0].item_name == o.item_name
            &&& after[0].is_buy_order == o.is_buy_order
            &&& after[0].status == o.status
            &&& N::whole(0).spec_below(price) ==> after[0].price_per_unit == price
            &&& N::whole(0).spec_below(price) && moved ==> after[0].placed_at == now
            &&& N::whole(0).spec_below(price) && !moved ==> after[0].placed_at == o.placed_at
            &&& !N::whole(0).spec_below(price) ==> after[0].price_per_unit == o.price_per_unit
                && after[0].placed_at == o.placed_at
        }),
{
    single_order_meets_single_row(s, rows, now);
}

/// One tracked order more among many meets the first row of its item that no
/// earlier order of the item has met: the row gives it its price and its amount
/// as it does for a single order. Without such a row a sell order stays as it is
/// while lots of the item are held, and any other order goes.
pub proof fn each_order_meets_its_own_row<N: Number>(
    s: TrackerState<N>,
    rows: Seq<(String, bool, u64, N)>,
    now: u64,
)
    requires
        s.orders.len() > 0,
    ensures
        ({
            let o = s.orders.last();
            let rest = TrackerState { orders: s.orders.drop_last(), ..s };
            let before = rest.reconciled_orders(rows, now);
            let after = s.reconciled_orders(rows, now);
            let shown = rows_for(rows, o.key(), o.is_buy_order);
            let met = count_for(before.orders, o.key(), o.is_buy_order);
            let held = units_of(before.bought, o.key());
            let fills = units_of(before.sold, o.key());
            if met < shown.len() {
                let (amount, price) = shown[met as int];
                let last = after.orders.last();
                &&& after.orders == before.orders.push(last)
                &&& last.item_name == o.item_name
                &&& last.is_buy_order == o.is_buy_order
                &&& last.status == o.status
                &&& N::whole(0).spec_below(price) ==> last.price_per_unit == price
                &&& !N::whole(0).spec_below(price) ==> last.price_per_unit == o.price_per_unit
                &&& last.placed_at == (if N::whole(0).spec_below(price) && N::whole(1).spec_over(
                    N::whole(100),
                ).spec_below(o.price_per_unit.spec_minus(price).spec_magnitude()) {
                    now
                } else {
                    o.placed_at
                })
                &&& o.is_buy_order && held < amount ==> last.amount == amount - held && units_of(
                    after.bought,
                    o.key(),
                ) == 0
                &&& o.is_buy_order && held >= amount ==> last.amount == o.amount && units_of(
                    after.bought,
                    o.key(),
                ) == held - amount
                &&& !o.is_buy_order && 0 < amount <= o.amount ==> last.amount == amount && units_of(
                    after.sold,
                    o.key(),
                ) == 0
                &&& !o.is_buy_order && amount > o.amount && fills < amount - o.amount ==> last.amount
                    == amount - fills && units_of(after.sold, o.key()) == 0
                &&& !o.is_buy_order && amount > o.amount && fills >= amount - o.amount
                    ==> last.amount == o.amount && units_of(after.sold, o.key()) == fills - (amount
                    - o.amount)
            } else if !o.is_buy_order && total_amount(s.lots_of(o.item_name)) > 0 {
                &&& after.orders == before.orders.push(o)
                &&& after.sold == before.sold
                &&& after.bought == before.bought
            } else {
                after == before
            }
        }),
{
    let o = s.orders.last();
    let rest = TrackerState { orders: s.orders.drop_last(), ..s };
    let before = rest.reconciled_orders(rows, now);
    let after = s.reconciled_orders(rows, now);
    let shown = rows_for(rows, o.key(), o.is_buy_order);
    let met = count_for(before.orders, o.key(), o.is_buy_order);
    assert(after == reconcile_order(before, o, rows, s.lots, now));
    if met < shown.len() {
        let (amount, price) = shown[met as int];
        assert(after.orders =~= before.orders.push(after.orders.last()));
        let more = (amount - o.amount) as u64;
        if lookup(before.bought, o.key()) is Some {
            let units = units_of(before.bought, o.key());
            crate::listing::lookup_after_with_entry(
                before.bought,
                o.key(),
                (units - drawn(before.bought, o.key(), amount)) as u64,
                o.key(),
            );
        }
        if lookup(before.sold, o.key()) is Some {
            let units = units_of(before.sold, o.key());
            crate::listing::lookup_after_with_entry(
                before.sold,
                o.key(),
                (units - drawn(before.sold, o.key(), more)) as u64,
                o.key(),
            );
            crate::listing::lookup_after_with_entry(before.sold, o.key(), 0, o.key());
        }
    }
}

/// A row that no order stands for becomes an open order at its price, of what
/// was not collected already. A buy row that the held units cover becomes one of
/// its whole amount; a sell row that was collected whole becomes none.
pub proof fn rows_without_orders_become_orders<N: Number>(
    r: Reconciled<N>,
    name: Seq<char>,
    side: bool,
    amount: u64,
    price: N,
    now: u64,
)
    requires
        amount > 0,
    ensures
        ({
            let after = add_row(r, name, side, (amount, price), now);
            let key = match_key(name);
            let taken = units_of(
                if side {
                    r.bought
                } else {
                    r.sold
                },
                key,
            );
            if side || taken < amount {
                let last = after.orders.last();
                &&& after.orders == r.orders.push(last)
                &&& last.item_name == name
                &&& last.is_buy_order == side
                &&& last.status == "open"@
                &&& last.placed_at == now
                &&& last.price_per_unit == price
                &&& taken < amount ==> last.amount == amount - taken
                &&& taken >= amount ==> last.amount == amount
            } else {
                after.orders == r.orders
            }
        }),
        ({
            let after = add_row(r, name, side, (amount, price), now);
            let key = match_key(name);
            &&& side ==> after.sold == r.sold && units_of(after.bought, key) == (if units_of(
                r.bought,
                key,
            ) < amount {
                0
            } else {
                units_of(r.bought, key) - amount
            })
            &&& !side ==> after.bought == r.bought && units_of(after.sold, key) == (if units_of(
                r.sold,
                key,
            ) < amount {
                0
            } else {
                units_of(r.sold, key) - amount
            })
        }),
{
    let after = add_row(r, name, side, (amount, price), now);
    let key = match_key(name);
    if after.orders != r.orders {
        assert(after.orders =~= r.orders.push(after.orders.last()));
    }
    let listed = if side {
        r.bought
    } else {
        r.sold
    };
    if lookup(listed, key) is Some {
        crate::listing::lookup_after_with_entry(
            listed,
            key,
            (units_of(listed, key) - drawn(listed, key, amount)) as u64,
            key,
        );
    }
}

/// The fills that are remembered after reconciling are those that are left, and
/// none of nothing. Reconciling changes neither lots, accounts, plans nor
/// performances.
pub proof fn reconciling_keeps_the_books<N: Number>(
    s: TrackerState<N>,
    rows: Seq<(String, bool, u64, N)>,
    now: u64,
    e: (Seq<char>, u64),
)
    ensures
        ({
            let after = s.after_reconcile(rows, now);
            &&& after.sell_fills.contains(e) ==> e.1 > 0 && s.reconciled(rows, now).sold.contains(e)
            &&& s.reconciled(rows, now).sold.contains(e) && e.1 > 0 ==> after.sell_fills.contains(e)
            &&& after.lots == s.lots
            &&& after.accounts == s.accounts
            &&& after.planned == s.planned
            &&& after.performance == s.performance
            &&& after.list_profits == s.list_profits
            &&& after.end_phase == s.end_phase
        }),
{
    let all = s.reconciled(rows, now).sold;
    let pred = holds_units();
    if all.contains(e) && e.1 > 0 {
        let i = choose|i: int| 0 <= i < all.len() && all[i] == e;
        all.lemma_filter_contains(pred, i);
    }
    if all.filter(pred).contains(e) {
        let i = choose|i: int| 0 <= i < all.filter(pred).len() && all.filter(pred)[i] == e;
        all.lemma_filter_pred(pred, i);
        all.lemma_filter_contains_rev(pred, e);
    }
}

/// What is reported as removed are the tracked orders that went, and never more
/// than there were.
pub proof fn removed_orders_are_counted<N: Number>(
    s: TrackerState<N>,
    after: TrackerState<N>,
    removed: int,
    rows: Seq<(String, bool, u64, N)>,
    now: u64,
)
    requires
        s.is_reconciled(after, removed, rows, now),
    ensures
        0 <= removed <= s.orders.len(),
        removed + s.reconciled_orders(rows, now).orders.len() == s.orders.len(),
        after.orders == s.after_reconcile(rows, now).orders,
        after.orders.len() >= s.orders.len() - removed,
{
    kept_orders_are_no_more(
        Reconciled {
            orders: Seq::<OrderRecord<N>>::empty(),
            bought: unit_counts(s.lots),
            sold: s.sell_fills,
        },
        s.orders,
        rows,
        s.lots,
        now,
    );
    let kept = s.reconciled_orders(rows, now);
    added_orders_are_no_fewer(kept, kept.orders, rows, rows.len(), now);
}

proof fn kept_orders_are_no_more<N: Number>(
    start: Reconciled<N>,
    orders: Seq<OrderRecord<N>>,
    rows: Seq<(String, bool, u64, N)>,
    lots: Entries<Seq<BuyCostLot<N>>>,
    now: u64,
)
    requires
        start.orders.len() == 0,
    ensures
        reconcile_orders(start, orders, rows, lots, now).orders.len() <= orders.len(),
    decreases orders.len(),
{
    if orders.len() > 0 {
        kept_orders_are_no_more(start, orders.drop_last(), rows, lots, now);
    }
}

proof fn added_orders_are_no_fewer<N: Number>(
    r: Reconciled<N>,
    kept: Seq<OrderRecord<N>>,
    rows: Seq<(String, bool, u64, N)>,
    n: nat,
    now: u64,
)
    ensures
        add_untracked(r, kept, rows, n, now).orders.len() >= r.orders.len(),
    decreases n,
{
    if n > 0 {
        added_orders_are_no_fewer(r, kept, rows, (n - 1) as nat, now);
        let before = add_untracked(r, kept, rows, (n - 1) as nat, now);
        let key = match_key(rows[n - 1].0@);
        let side = rows[n - 1].1;
        added_rows_are_no_fewer(
            before,
            rows,
            key,
            side,
            count_for(kept, key, side),
            rows_for(rows, key, side).len(),
            now,
        );
    }
}

proof fn added_rows_are_no_fewer<N: Number>(
    r: Reconciled<N>,
    rows: Seq<(String, bool, u64, N)>,
    key: Seq<char>,
    side: bool,
    start: nat,
    end: nat,
    now: u64,
)
    ensures
        add_rows(r, rows, key, side, start, end, now).orders.len() >= r.orders.len(),
    decreases end,
{
    if end > start {
        added_rows_are_no_fewer(r, rows, key, side, start, (end - 1) as nat, now);
    }
}

/// The rows of an item come in the order in which they are shown, and the item
/// is shown under the name of its first row.
pub proof fn rows_keep_their_order<N>(
    rows: Seq<(String, bool, u64, N)>,
    row: (String, bool, u64, N),
    key: Seq<char>,
    side: bool,
)
    ensures
        is_row_for(row, key, side) ==> rows_for(rows.push(row), key, side) == rows_for(
            rows,
            key,
            side,
        ).push((row.2, row.3)),
        !is_row_for(row, key, side) ==> rows_for(rows.push(row), key, side) == rows_for(
            rows,
            key,
            side,
        ),
        rows_for(Seq::<(String, bool, u64, N)>::empty(), key, side).len() == 0,
        rows.len() > 0 && match_key(rows[0].0@) == key && rows[0].1 == side ==> shown_name(
            rows,
            key,
            side,
        ) == rows[0].0@,
        rows.len() > 0 && !(match_key(rows[0].0@) == key && rows[0].1 == side) ==> shown_name(
            rows,
            key,
            side,
        ) == shown_name(rows.drop_first(), key, side),
{
    assert(rows.push(row).drop_last() =~= rows);
}

/// `orders` are the first orders that `rows` show, as they are shown.
pub open spec fn are_shown_orders<N>(
    orders: Seq<OrderRecord<N>>,
    rows: Seq<(String, bool, u64, N)>,
    now: u64,
) -> bool {
    forall|i: int|
        0 <= i < orders.len() ==> {
            &&& (#[trigger] orders[i]).item_name == rows[0].0@
            &&& orders[i].amount == rows[i].2
            &&& orders[i].price_per_unit == rows[i].3
            &&& orders[i].is_buy_order == rows[i].1
            &&& orders[i].status == "open"@
            &&& orders[i].placed_at == now
        }
}

/// Rows of one item on one side, each with an amount.
pub open spec fn are_rows_of_one_item<N>(
    rows: Seq<(String, bool, u64, N)>,
    key: Seq<char>,
    side: bool,
) -> bool {
    forall|i: int|
        0 <= i < rows.len() ==> match_key((#[trigger] rows[i]).0@) == key && rows[i].1 == side
            && rows[i].2 > 0
}

proof fn all_rows_count<N>(rows: Seq<(String, bool, u64, N)>, key: Seq<char>, side: bool)
    requires
        are_rows_of_one_item(rows, key, side),
    ensures
        rows_for(rows, key, side).len() == rows.len(),
        forall|i: int|
            0 <= i < rows.len() ==> #[trigger] rows_for(rows, key, side)[i] == (
                rows[i].2,
                rows[i].3,
            ),
    decreases rows.len(),
{
    if rows.len() > 0 {
        let rest = rows.drop_last();
        assert forall|i: int| 0 <= i < rest.len() implies match_key((#[trigger] rest[i]).0@) == key
            && rest[i].1 == side && rest[i].2 > 0 by {
            assert(rest[i] == rows[i]);
        }
        all_rows_count(rest, key, side);
        assert(rows.last() == rows[rows.len() - 1]);
        assert forall|i: int| 0 <= i < rows.len() implies #[trigger] rows_for(rows, key, side)[i]
            == (rows[i].2, rows[i].3) by {
            if i < rest.len() {
                assert(rows_for(rest, key, side)[i] == (rest[i].2, rest[i].3));
            }
        }
    }
}

proof fn rows_are_added_in_turn<N: Number>(
    r: Reconciled<N>,
    rows: Seq<(String, bool, u64, N)>,
    key: Seq<char>,
    side: bool,
    end: nat,
    now: u64,
)
    requires
        r.orders.len() == 0,
        units_of(r.bought, key) == 0,
        units_of(r.sold, key) == 0,
        end <= rows.len(),
        are_rows_of_one_item(rows, key, side),
    ensures
        ({
            let after = add_rows(r, rows, key, side, 0, end, now);
            &&& after.orders.len() == end
            &&& are_shown_orders(after.orders, rows, now)
            &&& units_of(after.bought, key) == 0
            &&& units_of(after.sold, key) == 0
        }),
    decreases end,
{
    if end > 0 {
        rows_are_added_in_turn(r, rows, key, side, (end - 1) as nat, now);
        all_rows_count(rows, key, side);
        let before = add_rows(r, rows, key, side, 0, (end - 1) as nat, now);
        let after = add_rows(r, rows, key, side, 0, end, now);
        let row = rows[end - 1];
        let name = shown_name(rows, key, side);
        assert(match_key(rows[0].0@) == key && rows[0].1 == side);
        assert(name == rows[0].0@);
        assert(rows_for(rows, key, side)[end - 1] == (row.2, row.3));
        assert(after == add_row(before, name, side, (row.2, row.3), now));
        rows_without_orders_become_orders(before, name, side, row.2, row.3, now);
        assert forall|i: int| 0 <= i < after.orders.len() implies {
            &&& (#[trigger] after.orders[i]).item_name == rows[0].0@
            &&& after.orders[i].amount == rows[i].2
            &&& after.orders[i].price_per_unit == rows[i].3
            &&& after.orders[i].is_buy_order == rows[i].1
            &&& after.orders[i].status == "open"@
            &&& after.orders[i].placed_at == now
        } by {
            if i < before.orders.len() {
                assert(after.orders[i] == before.orders[i]);
            }
        }
    }
}

/// Where nothing is tracked, and nothing of an item is held or was collected,
/// its rows become open orders one by one, each with its own amount and price,
/// under the name that is shown first.
pub proof fn rows_become_orders_one_by_one<N: Number>(
    s: TrackerState<N>,
    rows: Seq<(String, bool, u64, N)>,
    key: Seq<char>,
    side: bool,
    now: u64,
)
    requires
        s.orders.len() == 0,
        rows.len() > 0,
        are_rows_of_one_item(rows, key, side),
        units_of(unit_counts(s.lots), key) == 0,
        units_of(s.sell_fills, key) == 0,
    ensures
        s.after_reconcile(rows, now).orders.len() == rows.len(),
        are_shown_orders(s.after_reconcile(rows, now).orders, rows, now),
{
    reveal(Seq::filter);
    let kept = s.reconciled_orders(rows, now);
    assert(count_for(kept.orders, key, side) == 0);
    rows_are_added_in_turn(kept, rows, key, side, rows.len(), now);
    all_rows_count(rows, key, side);
    only_the_first_row_adds(kept, rows, key, side, rows.len(), now);
}

proof fn only_the_first_row_adds<N: Number>(
    kept: Reconciled<N>,
    rows: Seq<(String, bool, u64, N)>,
    key: Seq<char>,
    side: bool,
    n: nat,
    now: u64,
)
    requires
        0 < n <= rows.len(),
        are_rows_of_one_item(rows, key, side),
        count_for(kept.orders, key, side) == 0,
    ensures
        add_untracked(kept, kept.orders, rows, n, now) == add_rows(
            kept,
            rows,
            key,
            side,
            0,
            rows_for(rows, key, side).len(),
            now,
        ),
    decreases n,
{
    let i = n - 1;
    assert(match_key(rows[i].0@) == key && rows[i].1 == side && rows[i].2 > 0);
    let earlier = rows.take(i);
    assert forall|k: int| 0 <= k < earlier.len() implies match_key((#[trigger] earlier[k]).0@) == key
        && earlier[k].1 == side && earlier[k].2 > 0 by {
        assert(earlier[k] == rows[k]);
    }
    all_rows_count(earlier, key, side);
    if n == 1 {
        assert(add_untracked(kept, kept.orders, rows, 0, now) == kept);
        assert(is_first_row(rows, 0));
    } else {
        only_the_first_row_adds(kept, rows, key, side, (n - 1) as nat, now);
        assert(!is_first_row(rows, i));
    }
}

} // verus!
