//! Where realized profit comes from.

use vstd::prelude::*;

use crate::bazaar_tracker::item_key::match_key;
use crate::bazaar_tracker::lots::left_lots;
use crate::bazaar_tracker::records::SellBlockReason;
use crate::bazaar_tracker::selling::NEGATIVE_PROFIT_COOLDOWN_SECONDS;
use crate::bazaar_tracker::state::TrackerState;
use crate::listing::lookup;
use crate::number::Number;

verus! {

/// Profit is realized by collected sells alone: placing, filling, removing,
/// collecting, reconciling and dropping orders, recording and losing cost lots,
/// planning, checking and repricing sells, cooldowns and profits from other
/// sources all leave the realized profit as it is.
pub proof fn only_collected_sells_realize_profit<N: Number>(
    s: TrackerState<N>,
    item_name: Seq<char>,
    text: Seq<char>,
    amount: u64,
    price: N,
    rate: N,
    is_buy_order: bool,
    tag: Option<Seq<char>>,
    planned: Option<u64>,
    profit: i64,
    rows: Seq<(String, bool, u64, N)>,
    position: int,
    seconds: u64,
    now: u64,
)
    ensures
        ({
            let total = s.accounts.realized_profit_total;
            &&& s.after_add_order(
                item_name,
                amount,
                price,
                is_buy_order,
                now,
            ).accounts.realized_profit_total == total
            &&& s.after_mark_filled(item_name, is_buy_order).accounts.realized_profit_total == total
            &&& s.without_order(position).accounts.realized_profit_total == total
            &&& s.after_collect(item_name, position, amount).accounts.realized_profit_total == total
            &&& s.after_remove_stale(seconds, now).accounts.realized_profit_total == total
            &&& s.after_reconcile(rows, now).accounts.realized_profit_total == total
            &&& s.after_buy_cost(item_name, price, amount, now).accounts.realized_profit_total
                == total
            &&& s.after_sell_check(
                item_name,
                amount,
                price,
                rate,
                now,
            ).accounts.realized_profit_total == total
            &&& s.after_excess_missing(item_name, amount, now).accounts.realized_profit_total
                == total
            &&& s.after_planned_sell(
                item_name,
                price,
                tag,
                planned,
                now,
            ).accounts.realized_profit_total == total
            &&& s.after_planned_look(item_name, now).accounts.realized_profit_total == total
            &&& s.without_planned_sell(item_name).accounts.realized_profit_total == total
            &&& s.after_cooldown_item(
                item_name,
                text,
                seconds,
                now,
            ).accounts.realized_profit_total == total
            &&& s.after_lookup_failed(item_name, text, now).accounts.realized_profit_total == total
            &&& s.after_reprice(item_name).accounts.realized_profit_total == total
            &&& s.after_legacy_profit(profit).accounts.realized_profit_total == total
        }),
{
}

/// A collected sell books exactly the profit that its audit reports, in the
/// accounts and, where its cost is known, for its item.
pub proof fn collected_sells_book_their_audit<N: Number>(
    s: TrackerState<N>,
    item_name: Seq<char>,
    sold_amount: u64,
    claimed: N,
    gross_list_value: Option<N>,
    now: u64,
)
    ensures
        ({
            let audit = s.sell_audit(item_name, sold_amount, claimed, gross_list_value);
            let after = s.after_sell_collect(
                item_name,
                sold_amount,
                claimed,
                gross_list_value,
                now,
            );
            &&& after.accounts.realized_profit_total
                == s.accounts.realized_profit_total.wrapping_add(audit.realized_profit)
            &&& after.accounts.last_sell_audit == Some(audit)
            &&& s.is_accountable(item_name, sold_amount, claimed, gross_list_value)
                ==> after.performance_of(item_name).realized_profit_total == s.performance_of(
                item_name,
            ).realized_profit_total.wrapping_add(audit.realized_profit)
        }),
{
    let p = s.performance_of(item_name);
    let known = s.known_units(item_name, sold_amount);
    let audit = s.sell_audit(item_name, sold_amount, claimed, gross_list_value);
    let left = left_lots(s.lots_of(item_name), known);
    crate::listing::lookup_after_with_entry(
        s.performance,
        match_key(item_name),
        p.sold(
            audit.realized_profit,
            known < sold_amount,
            s.is_finished(item_name, left),
            now,
        ),
        item_name,
    );
}

/// A gain ends the cooldown of its item once nothing of it is held or ordered
/// any more, and leaves the cooldown as it is until then.
pub proof fn gains_end_cooldowns_when_finished<N: Number>(
    s: TrackerState<N>,
    item_name: Seq<char>,
    sold_amount: u64,
    claimed: N,
    gross_list_value: Option<N>,
    now: u64,
    later: u64,
)
    requires
        s.is_accountable(item_name, sold_amount, claimed, gross_list_value),
        s.sell_audit(item_name, sold_amount, claimed, gross_list_value).realized_profit > 0,
    ensures
        ({
            let after = s.after_sell_collect(
                item_name,
                sold_amount,
                claimed,
                gross_list_value,
                now,
            );
            let left = left_lots(s.lots_of(item_name), s.known_units(item_name, sold_amount));
            let before = s.performance_of(item_name);
            &&& s.is_finished(item_name, left) ==> after.cooldown(item_name, later) is None
            &&& !s.is_finished(item_name, left) ==> after.performance_of(item_name).cooldown_until
                == before.cooldown_until && after.performance_of(item_name).block_reason
                == before.block_reason
        }),
{
    let p = s.performance_of(item_name);
    let known = s.known_units(item_name, sold_amount);
    let audit = s.sell_audit(item_name, sold_amount, claimed, gross_list_value);
    let left = left_lots(s.lots_of(item_name), known);
    crate::listing::lookup_after_with_entry(
        s.performance,
        match_key(item_name),
        p.sold(
            audit.realized_profit,
            known < sold_amount,
            s.is_finished(item_name, left),
            now,
        ),
        item_name,
    );
}

/// A collected sell ends the planned sell of its item, whether or not its cost
/// is known.
pub proof fn collected_sells_end_the_plan<N: Number>(
    s: TrackerState<N>,
    item_name: Seq<char>,
    sold_amount: u64,
    claimed: N,
    gross_list_value: Option<N>,
    now: u64,
)
    requires
        s.is_valid(),
    ensures
        lookup(
            s.after_sell_collect(item_name, sold_amount, claimed, gross_list_value, now).planned,
            match_key(item_name),
        ) is None,
{
    crate::listing::lookup_after_without_entry(s.planned, match_key(item_name), item_name);
}

/// Lots whose sale would lose coins do not wait to be sold: an item whose sell
/// was refused for its loss is blocked for the time of its cooldown.
pub proof fn refused_losses_are_blocked<N: Number>(
    s: TrackerState<N>,
    item_name: Seq<char>,
    amount: u64,
    price_per_unit: N,
    tax_rate: N,
    now: u64,
    later: u64,
)
    requires
        s.sell_block(item_name, amount, price_per_unit, tax_rate) == Some(
            SellBlockReason::NegativeExpectedProfit,
        ),
        later < now + NEGATIVE_PROFIT_COOLDOWN_SECONDS <= u64::MAX,
    ensures
        s.after_sell_check(item_name, amount, price_per_unit, tax_rate, now).is_blocked(
            match_key(item_name),
            later,
        ),
{
    crate::listing::lookup_after_with_entry(
        s.performance,
        match_key(item_name),
        s.performance_of(item_name).loss_refused(now),
        item_name,
    );
}

} // verus!
