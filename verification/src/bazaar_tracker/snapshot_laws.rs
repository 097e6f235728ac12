//! What a snapshot tells of orders, lots and items.

use vstd::prelude::*;
use vstd::string::*;

use crate::bazaar_tracker::item_key::match_key;
use crate::bazaar_tracker::lots::{lots_value, total_amount};
use crate::bazaar_tracker::orders::{active_for, ordered_amount, orders_value, stale_on};
use crate::bazaar_tracker::records::{BuyCostLot, OrderRecord, PerformanceRecord};
use crate::bazaar_tracker::snapshot::{active_on, entries_value, longest_held, names};
use crate::bazaar_tracker::state::TrackerState;
use crate::listing::{lookup, Entries};
use crate::number::Number;

verus! {

/// The totals of a snapshot are those of the accounts, and its lots are those of
/// the tracker.
pub proof fn snapshots_carry_the_accounts<N: Number>(s: TrackerState<N>, now: u64)
    ensures
        ({
            let r = s.snapshot(now);
            &&& r.realized_profit_total == s.accounts.realized_profit_total
            &&& r.unknown_cost_basis_sells == s.accounts.unknown_cost_basis_sells
            &&& r.ignored_legacy_profit_total == s.accounts.ignored_legacy_profit_total
            &&& r.last_sell_audit == s.accounts.last_sell_audit
            &&& r.last_sell_audit_at == s.accounts.last_sell_audit_at
            &&& r.remaining_cost_lots == s.lots
            &&& r.remaining_cost_lot_value == entries_value(s.lots)
            &&& r.cleanup_state == s.end_phase
            &&& r.web_graph_source == "local_fifo_known_cost_basis_only"@
        }),
{
}

/// Active orders count on their own side, with what they are worth.
pub proof fn snapshots_count_active_orders<N: Number>(
    s: TrackerState<N>,
    now: u64,
    o: OrderRecord<N>,
    side: bool,
)
    ensures
        ({
            let r = s.snapshot(now);
            let buys = s.orders.filter(active_on(true));
            let sells = s.orders.filter(active_on(false));
            &&& r.active_buy_orders == buys.len()
            &&& r.active_sell_orders == sells.len()
            &&& r.open_buy_capital == orders_value(buys)
            &&& r.open_sell_value == orders_value(sells)
            &&& r.active_buy_orders + r.active_sell_orders <= s.orders.len()
            &&& active_on::<N>(side)(o) <==> (o.status == "open"@ || o.status == "filled"@)
                && o.is_buy_order == side
        }),
    decreases s.orders.len(),
{
    reveal(Seq::filter);
    if s.orders.len() > 0 {
        let rest = TrackerState { orders: s.orders.drop_last(), ..s };
        snapshots_count_active_orders(rest, now, o, side);
    }
}

/// Orders count as stale from an age of twenty minutes on.
pub proof fn snapshots_count_stale_orders<N: Number>(
    s: TrackerState<N>,
    now: u64,
    o: OrderRecord<N>,
    side: bool,
)
    ensures
        s.snapshot(now).stale_buy_orders == s.orders.filter(stale_on(true, 1200, now)).len(),
        s.snapshot(now).stale_sell_orders == s.orders.filter(stale_on(false, 1200, now)).len(),
        now >= o.placed_at ==> (stale_on::<N>(side, 1200, now)(o) <==> (o.status == "open"@
            || o.status == "filled"@) && o.is_buy_order == side && now - o.placed_at >= 1200),
{
}

/// What the open sells will bring in is their value less 1.25 percent, and the
/// profit to come is that less what all held lots have cost.
pub proof fn open_sells_are_estimated_after_tax<N: Number>(s: TrackerState<N>, now: u64)
    ensures
        ({
            let r = s.snapshot(now);
            &&& r.estimated_sell_value_after_tax == r.open_sell_value.spec_times(
                N::whole(1).spec_minus(N::whole(125).spec_over(N::whole(10000))),
            )
            &&& r.estimated_unrealized_profit == r.estimated_sell_value_after_tax.spec_minus(
                r.remaining_cost_lot_value,
            )
        }),
{
}

/// The lots of one item more add what they have cost, lot by lot.
pub proof fn lots_add_up<N: Number>(
    entries: Entries<Seq<BuyCostLot<N>>>,
    name: Seq<char>,
    lots: Seq<BuyCostLot<N>>,
    more: BuyCostLot<N>,
)
    ensures
        entries_value(Seq::<(Seq<char>, Seq<BuyCostLot<N>>)>::empty()) == N::whole(0),
        entries_value(entries.push((name, lots))) == entries_value(entries).spec_plus(
            lots_value(lots),
        ),
        lots_value(Seq::<BuyCostLot<N>>::empty()) == N::whole(0),
        lots_value(lots.push(more)) == lots_value(lots).spec_plus(
            more.price_per_unit.spec_times(N::whole(more.amount)),
        ),
        total_amount(Seq::<BuyCostLot<N>>::empty()) == 0,
        total_amount(lots.push(more)) == total_amount(lots).wrapping_add(more.amount),
{
    assert(entries.push((name, lots)).drop_last() =~= entries);
    assert(lots.push(more).drop_last() =~= lots);
}

/// An item waits to be sold when its lots are worth something and its active
/// sell orders offer fewer units than the lots hold.
pub proof fn items_wait_until_all_units_are_offered<N: Number>(
    s: TrackerState<N>,
    key: Seq<char>,
    lots: Seq<BuyCostLot<N>>,
)
    ensures
        ({
            let offered = ordered_amount(s.orders.filter(active_for(key, false)));
            s.is_waiting((key, lots)) <==> N::whole(0).spec_below(lots_value(lots))
                && total_amount(lots) > offered
        }),
{
}

/// An item is kept from being sold while its cooldown lasts, but only where it
/// rests for a loss, a failed lookup or units that were missing.
pub proof fn some_cooldowns_keep_from_selling<N: Number>(
    s: TrackerState<N>,
    key: Seq<char>,
    now: u64,
)
    ensures
        ({
            let known = lookup(s.performance, key);
            let p = known->0;
            s.is_blocked(key, now) <==> {
                &&& known is Some
                &&& p.cooldown_until is Some && p.cooldown_until->0 > now
                &&& {
                    ||| p.block_reason == Some("NEGATIVE_EXPECTED_PROFIT"@)
                    ||| p.block_reason == Some("PRODUCT_LOOKUP_FAILED"@)
                    ||| p.block_reason == Some("COST_LOT_NOT_IN_INVENTORY"@)
                }
            }
        }),
{
}

proof fn named_entries_are_entries<N: Number>(
    entries: Entries<Seq<BuyCostLot<N>>>,
    pred: spec_fn((Seq<char>, Seq<BuyCostLot<N>>)) -> bool,
    e: (Seq<char>, Seq<BuyCostLot<N>>),
)
    ensures
        entries.contains(e) && pred(e) ==> names(entries.filter(pred)).contains(e.0),
        forall|name: Seq<char>| #[trigger]
            names(entries.filter(pred)).contains(name) ==> exists|k: int|
                0 <= k < entries.len() && #[trigger] pred(entries[k]) && entries[k].0 == name,
{
    let kept = entries.filter(pred);
    if entries.contains(e) && pred(e) {
        let k = choose|k: int| 0 <= k < entries.len() && entries[k] == e;
        entries.lemma_filter_contains(pred, k);
        let j = choose|j: int| 0 <= j < kept.len() && kept[j] == e;
        assert(names(kept)[j] == e.0);
    }
    assert forall|name: Seq<char>| #[trigger] names(kept).contains(name) implies exists|k: int|
        0 <= k < entries.len() && #[trigger] pred(entries[k]) && entries[k].0 == name by {
        let j = choose|j: int| 0 <= j < names(kept).len() && names(kept)[j] == name;
        assert(names(kept)[j] == kept[j].0);
        entries.lemma_filter_pred(pred, j);
        assert(kept.contains(kept[j]));
        entries.lemma_filter_contains_rev(pred, kept[j]);
        let k = choose|k: int| 0 <= k < entries.len() && entries[k] == kept[j];
        assert(pred(entries[k]) && entries[k].0 == name);
    }
}

/// Every item that waits is reported once: as one to sell or, while it is kept
/// from being sold, as a blocked one. No other item is reported.
pub proof fn waiting_items_are_reported<N: Number>(
    s: TrackerState<N>,
    now: u64,
    e: (Seq<char>, Seq<BuyCostLot<N>>),
)
    ensures
        ({
            let r = s.snapshot(now);
            &&& s.lots.contains(e) && s.is_waiting(e) && !s.is_blocked(e.0, now)
                ==> r.items_waiting_for_sell.contains(e.0)
            &&& s.lots.contains(e) && s.is_waiting(e) && s.is_blocked(e.0, now)
                ==> r.blocked_items_waiting_for_sell.contains(e.0)
            &&& r.items_waiting_for_sell.contains(e.0) ==> !s.is_blocked(e.0, now)
            &&& r.blocked_items_waiting_for_sell.contains(e.0) ==> s.is_blocked(e.0, now)
            &&& r.items_waiting_for_sell.contains(e.0) || r.blocked_items_waiting_for_sell.contains(
                e.0,
            ) ==> exists|k: int|
                0 <= k < s.lots.len() && (#[trigger] s.lots[k]).0 == e.0 && s.is_waiting(s.lots[k])
        }),
{
    let free = s.waiting(false, now);
    let held = s.waiting(true, now);
    named_entries_are_entries(s.lots, free, e);
    named_entries_are_entries(s.lots, held, e);
    let r = s.snapshot(now);
    if r.items_waiting_for_sell.contains(e.0) {
        let k = choose|k: int|
            0 <= k < s.lots.len() && #[trigger] free(s.lots[k]) && s.lots[k].0 == e.0;
        assert(s.lots[k].0 == e.0 && s.is_waiting(s.lots[k]));
    }
    if r.blocked_items_waiting_for_sell.contains(e.0) {
        let k = choose|k: int|
            0 <= k < s.lots.len() && #[trigger] held(s.lots[k]) && s.lots[k].0 == e.0;
        assert(s.lots[k].0 == e.0 && s.is_waiting(s.lots[k]));
    }
}

/// What the lots of the items to sell and of the blocked items have cost.
pub proof fn waiting_lots_are_valued<N: Number>(s: TrackerState<N>, now: u64)
    ensures
        ({
            let r = s.snapshot(now);
            let free = |e: (Seq<char>, Seq<BuyCostLot<N>>)|
                s.is_waiting(e) && !s.is_blocked(e.0, now);
            let held = |e: (Seq<char>, Seq<BuyCostLot<N>>)|
                s.is_waiting(e) && s.is_blocked(e.0, now);
            &&& r.actionable_cost_lot_value == entries_value(s.lots.filter(free))
            &&& r.blocked_cost_lot_value == entries_value(s.lots.filter(held))
            &&& r.items_waiting_for_sell.len() == s.lots.filter(free).len()
            &&& r.blocked_items_waiting_for_sell.len() == s.lots.filter(held).len()
        }),
{
    let free = |e: (Seq<char>, Seq<BuyCostLot<N>>)| s.is_waiting(e) && !s.is_blocked(e.0, now);
    let held = |e: (Seq<char>, Seq<BuyCostLot<N>>)| s.is_waiting(e) && s.is_blocked(e.0, now);
    assert(free =~= s.waiting(false, now));
    assert(held =~= s.waiting(true, now));
}

/// The performance of an item is reported with what is ordered, offered and held
/// of it, and with the age of its oldest lot.
pub proof fn performances_are_reported_with_holdings<N: Number>(
    s: TrackerState<N>,
    now: u64,
    i: int,
)
    requires
        0 <= i < s.performance.len(),
    ensures
        ({
            let r = s.snapshot(now).item_performance;
            let p = s.performance[i].1;
            let q = r[i].1;
            let key = match_key(p.item_name);
            &&& r.len() == s.performance.len()
            &&& r[i].0 == s.performance[i].0
            &&& q.current_open_buy_capital == orders_value(s.orders.filter(active_for(key, true)))
            &&& q.current_open_sell_value == orders_value(s.orders.filter(active_for(key, false)))
            &&& q.current_cost_lot_value == lots_value(s.lots_of(p.item_name))
            &&& q.max_cost_lot_age_seconds == longest_held(s.lots_of(p.item_name), now)
            &&& q == (PerformanceRecord {
                current_open_buy_capital: q.current_open_buy_capital,
                current_open_sell_value: q.current_open_sell_value,
                current_cost_lot_value: q.current_cost_lot_value,
                max_cost_lot_age_seconds: q.max_cost_lot_age_seconds,
                ..p
            })
        }),
{
}

/// The longest-held lot is held as long as some lot and no less than any; a lot
/// from the future has no age.
pub proof fn the_longest_held_lot_is_the_oldest<N>(
    lots: Seq<BuyCostLot<N>>,
    now: u64,
    i: int,
)
    requires
        0 <= i < lots.len(),
    ensures
        lots[i].collected_at <= now ==> longest_held(lots, now) >= now - lots[i].collected_at,
        longest_held(lots, now) == 0 || exists|j: int|
            0 <= j < lots.len() && (#[trigger] lots[j]).collected_at <= now && longest_held(
                lots,
                now,
            ) == now - lots[j].collected_at,
    decreases lots.len(),
{
    let rest = lots.drop_last();
    let last = lots[lots.len() - 1];
    if rest.len() > 0 {
        let k = if i < rest.len() {
            i
        } else {
            0
        };
        the_longest_held_lot_is_the_oldest(rest, now, k);
        if longest_held(rest, now) > 0 {
            let j = choose|j: int|
                0 <= j < rest.len() && (#[trigger] rest[j]).collected_at <= now && longest_held(
                    rest,
                    now,
                ) == now - rest[j].collected_at;
            assert(lots[j].collected_at <= now);
        }
    } else {
        assert(longest_held(rest, now) == 0);
    }
    assert(last.collected_at <= now || now.saturating_sub(last.collected_at) == 0);
}

} // verus!
