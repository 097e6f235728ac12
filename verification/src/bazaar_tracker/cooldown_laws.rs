//! How long items rest, how long planned sells count, and what is noted of
//! items.

use vstd::prelude::*;
use vstd::string::*;

use crate::bazaar_tracker::item_key::match_key;
use crate::bazaar_tracker::performance::{cooldown_label, lookup_failure_label};
use crate::bazaar_tracker::planned::by_item_key;
use crate::bazaar_tracker::records::{OrderRecord, PerformanceRecord};
use crate::bazaar_tracker::state::{PlannedRecord, TrackerState};
use crate::listing::{lookup, lookup_after_with_entry, lookup_after_without_entry};
use crate::number::Number;
use crate::text::{ascii_upper, trim};

verus! {

/// An item rests until its cooldown is over and not a second longer; after a
/// failed lookup it rests for two minutes at most. A cooldown without a reason
/// goes by its own name.
pub proof fn items_rest_until_their_cooldown_ends<N: Number>(p: PerformanceRecord<N>, now: u64)
    ensures
        p.cooldown_until is None ==> p.cooldown(now) is None,
        p.cooldown_until is Some && p.cooldown_until->0 <= now ==> p.cooldown(now) is None,
        p.cooldown_until is Some && p.cooldown_until->0 > now && p.block_reason is None
            ==> p.cooldown(now) == Some((p.cooldown_until->0, "ITEM_COOLDOWN"@)),
        p.cooldown_until is Some && p.cooldown_until->0 > now && p.block_reason is Some
            && p.block_reason->0 != "PRODUCT_LOOKUP_FAILED"@ ==> p.cooldown(now) == Some(
            (p.cooldown_until->0, p.block_reason->0),
        ),
        p.cooldown_until is Some && p.block_reason == Some("PRODUCT_LOOKUP_FAILED"@)
            && p.last_failure_timestamp is Some && p.last_failure_timestamp->0 + 120 <= now
            ==> p.cooldown(now) is None,
        p.cooldown_until is Some && p.block_reason == Some("PRODUCT_LOOKUP_FAILED"@)
            && p.last_failure_timestamp is Some && now < p.last_failure_timestamp->0 + 120
            <= p.cooldown_until->0 ==> p.cooldown(now) == Some(
            ((p.last_failure_timestamp->0 + 120) as u64, "PRODUCT_LOOKUP_FAILED"@),
        ),
        p.cooldown_until is Some && p.block_reason == Some("PRODUCT_LOOKUP_FAILED"@)
            && p.last_failure_timestamp is Some && now < p.cooldown_until->0
            <= p.last_failure_timestamp->0 + 120 <= u64::MAX ==> p.cooldown(now) == Some(
            (p.cooldown_until->0, "PRODUCT_LOOKUP_FAILED"@),
        ),
        p.cooldown_until is Some && p.block_reason == Some("PRODUCT_LOOKUP_FAILED"@)
            && p.last_failure_timestamp is None && p.cooldown_until->0 > now ==> p.cooldown(now)
            == Some((p.cooldown_until->0, "PRODUCT_LOOKUP_FAILED"@)),
{
    reveal_strlit("ITEM_COOLDOWN");
    reveal_strlit("PRODUCT_LOOKUP_FAILED");
    assert("ITEM_COOLDOWN"@.len() == 13);
    assert("PRODUCT_LOOKUP_FAILED"@.len() == 21);
}

/// A manual cooldown lasts for the given seconds, at least for a minute, and
/// never ends earlier than the one before; it notes the time and the reason, in
/// upper case and without surrounding blanks.
pub proof fn manual_cooldowns_last_a_minute_at_least<N: Number>(
    s: TrackerState<N>,
    item_name: Seq<char>,
    reason: Seq<char>,
    seconds: u64,
    now: u64,
    other: Seq<char>,
)
    requires
        now + seconds <= u64::MAX,
        now + 60 <= u64::MAX,
    ensures
        ({
            let before = s.performance_of(item_name);
            let after = s.after_cooldown_item(item_name, reason, seconds, now);
            let p = after.performance_of(item_name);
            let end = if seconds >= 60 {
                now + seconds
            } else {
                now + 60
            };
            &&& p.cooldown_until is Some
            &&& before.cooldown_until is None || before.cooldown_until->0 <= end
                ==> p.cooldown_until->0 == end
            &&& before.cooldown_until is Some && before.cooldown_until->0 > end
                ==> p.cooldown_until == before.cooldown_until
            &&& p.block_reason is Some
            &&& p.block_reason->0.len() == trim(reason).len()
            &&& forall|i: int|
                0 <= i < trim(reason).len() ==> #[trigger] p.block_reason->0[i] == ascii_upper(
                    trim(reason)[i],
                )
            &&& p.last_failure_timestamp == Some(now)
            &&& p.failed_flips == before.failed_flips
            &&& match_key(other) != match_key(item_name) ==> lookup(
                after.performance,
                match_key(other),
            ) == lookup(s.performance, match_key(other))
            &&& after.orders == s.orders
            &&& after.lots == s.lots
            &&& after.planned == s.planned
        }),
{
    let cooled = s.performance_of(item_name).cooled_down(reason, seconds, now);
    lookup_after_with_entry(s.performance, match_key(item_name), cooled, match_key(other));
    lookup_after_with_entry(s.performance, match_key(item_name), cooled, match_key(item_name));
}

/// A failed product lookup is counted as a failed search and a failed flip,
/// rests the item for two minutes and ends its planned sell; a blank reason is
/// given the usual name.
pub proof fn failed_lookups_are_counted<N: Number>(
    s: TrackerState<N>,
    item_name: Seq<char>,
    reason: Seq<char>,
    now: u64,
    other: Seq<char>,
)
    requires
        s.is_valid(),
        now + 120 <= u64::MAX,
    ensures
        ({
            let before = s.performance_of(item_name);
            let after = s.after_lookup_failed(item_name, reason, now);
            let p = after.performance_of(item_name);
            &&& p.failed_search_count == before.failed_search_count.wrapping_add(1)
            &&& p.failed_flips == before.failed_flips.wrapping_add(1)
            &&& p.last_failure_timestamp == Some(now)
            &&& p.cooldown_until == Some((now + 120) as u64)
            &&& trim(reason).len() == 0 ==> p.block_reason == Some("PRODUCT_LOOKUP_FAILED"@)
            &&& trim(reason).len() > 0 ==> p.block_reason == Some(trim(reason))
            &&& lookup(after.planned, match_key(item_name)) is None
            &&& match_key(other) != match_key(item_name) ==> lookup(after.planned, match_key(other))
                == lookup(s.planned, match_key(other)) && lookup(
                after.performance,
                match_key(other),
            ) == lookup(s.performance, match_key(other))
            &&& after.orders == s.orders
            &&& after.lots == s.lots
            &&& after.accounts == s.accounts
        }),
{
    let failed = s.performance_of(item_name).lookup_failed(reason, now);
    lookup_after_with_entry(s.performance, match_key(item_name), failed, match_key(other));
    lookup_after_with_entry(s.performance, match_key(item_name), failed, match_key(item_name));
    lookup_after_without_entry(s.planned, match_key(item_name), match_key(other));
}

/// A new price is counted for its item alone, and changes nothing else.
pub proof fn new_prices_are_counted<N: Number>(
    s: TrackerState<N>,
    item_name: Seq<char>,
    other: Seq<char>,
)
    ensures
        ({
            let before = s.performance_of(item_name);
            let after = s.after_reprice(item_name);
            let p = after.performance_of(item_name);
            &&& p.reprice_count == before.reprice_count.wrapping_add(1)
            &&& p == (PerformanceRecord { reprice_count: p.reprice_count, ..before })
            &&& match_key(other) != match_key(item_name) ==> lookup(
                after.performance,
                match_key(other),
            ) == lookup(s.performance, match_key(other))
            &&& after.orders == s.orders
            &&& after.lots == s.lots
        }),
{
    let p = s.performance_of(item_name);
    let counted = PerformanceRecord { reprice_count: p.reprice_count.wrapping_add(1), ..p };
    lookup_after_with_entry(s.performance, match_key(item_name), counted, match_key(other));
    lookup_after_with_entry(s.performance, match_key(item_name), counted, match_key(item_name));
}

/// An item of which nothing is known starts with no counts, no profit and no
/// cooldown, under the name that it is first met by; a known item keeps its
/// record.
pub proof fn unknown_items_start_blank<N: Number>(s: TrackerState<N>, item_name: Seq<char>)
    ensures
        ({
            let p = s.performance_of(item_name);
            let known = lookup(s.performance, match_key(item_name));
            &&& known is Some && known->0.item_name.len() > 0 ==> p == known->0
            &&& known is Some && known->0.item_name.len() == 0 ==> p == (PerformanceRecord {
                item_name,
                ..known->0
            })
            &&& known is None ==> {
                &&& p.item_name == item_name
                &&& p.product_id == match_key(item_name)
                &&& p.buy_orders_placed == 0
                &&& p.buy_orders_filled == 0
                &&& p.buy_orders_cancelled == 0
                &&& p.sell_orders_placed == 0
                &&& p.sell_orders_filled == 0
                &&& p.sell_orders_cancelled == 0
                &&& p.successful_flips == 0
                &&& p.failed_flips == 0
                &&& p.realized_profit_total == 0
                &&& p.realized_profit_last_10m == 0
                &&& p.realized_profit_last_30m == 0
                &&& p.realized_profit_last_60m == 0
                &&& p.reprice_count == 0
                &&& p.cancel_count == 0
                &&& p.failed_search_count == 0
                &&& p.cannot_afford_count == 0
                &&& p.unknown_cost_basis_count == 0
                &&& p.negative_profit_block_count == 0
                &&& p.last_success_timestamp is None
                &&& p.last_failure_timestamp is None
                &&& p.cooldown_until is None
                &&& p.block_reason is None
            }
        }),
{
}

/// A planned sell with an amount counts for two minutes and not longer; one
/// without an amount counts until it is taken or replaced. A look at one that
/// has expired gives it up, any other look changes nothing.
pub proof fn planned_sells_count_for_two_minutes<N: Number>(
    s: TrackerState<N>,
    item_name: Seq<char>,
    now: u64,
)
    requires
        s.is_valid(),
    ensures
        ({
            let planned = lookup(s.planned, match_key(item_name));
            let found = s.planned_sell(item_name, now);
            let after = s.after_planned_look(item_name, now);
            let expired = planned is Some && planned->0.amount is Some && now
                > planned->0.recorded_at + 120;
            &&& expired ==> found is None && lookup(after.planned, match_key(item_name)) is None
            &&& !expired ==> found == planned && after == s
            &&& after.orders == s.orders
            &&& after.lots == s.lots
            &&& after.performance == s.performance
            &&& after.accounts == s.accounts
        }),
{
    lookup_after_without_entry(s.planned, match_key(item_name), item_name);
}

/// A planned sell replaces the one before and concerns no other item.
pub proof fn planned_sells_replace_each_other<N: Number>(
    s: TrackerState<N>,
    item_name: Seq<char>,
    price_per_unit: N,
    item_tag: Option<Seq<char>>,
    amount: Option<u64>,
    now: u64,
    other: Seq<char>,
)
    ensures
        ({
            let after = s.after_planned_sell(item_name, price_per_unit, item_tag, amount, now);
            let planned = lookup(after.planned, match_key(item_name));
            &&& planned is Some
            &&& planned->0.price_per_unit == price_per_unit
            &&& planned->0.item_tag == item_tag
            &&& planned->0.amount == amount
            &&& planned->0.recorded_at == now
            &&& match_key(other) != match_key(item_name) ==> lookup(after.planned, match_key(other))
                == lookup(s.planned, match_key(other))
            &&& after.orders == s.orders
            &&& after.lots == s.lots
            &&& after.performance == s.performance
        }),
{
    let planned = PlannedRecord { price_per_unit, item_tag, amount, recorded_at: now };
    lookup_after_with_entry(s.planned, match_key(item_name), planned, match_key(other));
    lookup_after_with_entry(s.planned, match_key(item_name), planned, match_key(item_name));
}

/// What the outside list reports last of an item counts.
pub proof fn listed_profits_count_by_item(
    items: Seq<(String, (i64, u32))>,
    more: (String, (i64, u32)),
    other: Seq<char>,
)
    ensures
        lookup(by_item_key(items.push(more)), match_key(more.0@)) == Some(more.1),
        other != match_key(more.0@) ==> lookup(by_item_key(items.push(more)), other) == lookup(
            by_item_key(items),
            other,
        ),
        by_item_key(Seq::<(String, (i64, u32))>::empty()).len() == 0,
{
    assert(items.push(more).drop_last() =~= items);
    lookup_after_with_entry(by_item_key(items), match_key(more.0@), more.1, other);
}

/// Profits that other sources report are added up apart.
pub proof fn other_profits_are_added_up_apart<N: Number>(s: TrackerState<N>, profit: i64)
    ensures
        ({
            let after = s.after_legacy_profit(profit);
            &&& after.accounts.ignored_legacy_profit_total
                == s.accounts.ignored_legacy_profit_total.wrapping_add(profit)
            &&& after.accounts.realized_profit_total == s.accounts.realized_profit_total
            &&& after.accounts.unknown_cost_basis_sells == s.accounts.unknown_cost_basis_sells
            &&& after.orders == s.orders
            &&& after.lots == s.lots
        }),
{
}

/// The labels of cooldowns and failed lookups come from the given reason.
pub proof fn labels_come_from_the_reason(reason: Seq<char>, i: int)
    ensures
        cooldown_label(reason).len() == trim(reason).len(),
        0 <= i < trim(reason).len() ==> cooldown_label(reason)[i] == ascii_upper(trim(reason)[i]),
        trim(reason).len() > 0 ==> lookup_failure_label(reason) == trim(reason),
        trim(reason).len() == 0 ==> lookup_failure_label(reason) == "PRODUCT_LOOKUP_FAILED"@,
{
}

/// A buy order rests with its item: it is active, on the buy side, and its item
/// is on cooldown.
pub proof fn buys_rest_with_their_item<N: Number>(s: TrackerState<N>, o: OrderRecord<N>, now: u64)
    ensures
        s.is_buy_on_cooldown(o, now) <==> {
            &&& o.is_buy_order
            &&& o.status == "open"@ || o.status == "filled"@
            &&& s.cooldown(o.item_name, now) is Some
        },
        s.cooldown(o.item_name, now) == match lookup(s.performance, match_key(o.item_name)) {
            Some(p) => p.cooldown(now),
            None => None,
        },
{
}

/// The first buy order that rests is reported with the reason and the end of its
/// rest; none is reported where none rests.
pub proof fn the_first_resting_buy_is_reported<N: Number>(
    s: TrackerState<N>,
    found: Option<(Seq<char>, Seq<char>, u64)>,
    now: u64,
    j: int,
)
    requires
        s.first_buy_on_cooldown(found, now),
        0 <= j < s.orders.len(),
    ensures
        s.is_buy_on_cooldown(s.orders[j], now) ==> found is Some,
        match found {
            Some((name, reason, until)) => {
                &&& s.cooldown(name, now) == Some((until, reason))
                &&& exists|i: int|
                    {
                        &&& 0 <= i < s.orders.len()
                        &&& (#[trigger] s.orders[i]).item_name == name
                        &&& s.is_buy_on_cooldown(s.orders[i], now)
                        &&& s.is_buy_on_cooldown(s.orders[j], now) ==> i <= j
                    }
            },
            None => true,
        },
{
    if let Some((name, reason, until)) = found {
        let i = choose|i: int|
            {
                &&& 0 <= i < s.orders.len()
                &&& #[trigger] s.is_buy_on_cooldown(s.orders[i], now)
                &&& name == s.orders[i].item_name
                &&& s.cooldown(name, now) == Some((until, reason))
                &&& forall|k: int|
                    0 <= k < i ==> !#[trigger] s.is_buy_on_cooldown(s.orders[k], now)
            };
        assert(s.orders[i].item_name == name);
    }
}

/// A look at a planned sell finds its price, product and amount while it counts,
/// nothing after, and tells the amount alone just as well.
pub proof fn looks_find_what_is_planned<N: Number>(
    s: TrackerState<N>,
    after: TrackerState<N>,
    item_name: Seq<char>,
    found: Option<(N, Option<Seq<char>>, Option<u64>)>,
    amount: Option<u64>,
    now: u64,
)
    requires
        s.is_planned_look(after, item_name, found, now),
        s.is_planned_amount_look(after, item_name, amount, now),
    ensures
        ({
            let planned = lookup(s.planned, match_key(item_name));
            let counts = planned is Some && (planned->0.amount is None || now
                <= planned->0.recorded_at + 120);
            &&& counts ==> found == Some(
                (planned->0.price_per_unit, planned->0.item_tag, planned->0.amount),
            ) && amount == planned->0.amount && after == s
            &&& !counts ==> found is None && amount is None
        }),
{
}

} // verus!
