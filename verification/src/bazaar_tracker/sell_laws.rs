//! What the checks before a sell, the audits behind it and the lots in between
//! amount to.

use vstd::prelude::*;
use vstd::string::*;

use crate::bazaar_tracker::item_key::match_key;
use crate::bazaar_tracker::lots::{
    amount_sum, amount_sum_of_first, dropped_lots, dropping_conserves_units, fifo_conserves_units, fifo_uses_oldest_lots,
    kept_lots, left_lots, lots_value, reduced, total_amount_is_bounded, usage, usage_cost, used_lots,
};
use crate::bazaar_tracker::orders::{active_for, orders_value};
use crate::bazaar_tracker::records::{
    BuyCostLot, BuyCostLotUsage, CostBasisStatus, SellBlockReason,
};
use crate::bazaar_tracker::selling::{is_known_claim, sell_after_tax};
use crate::bazaar_tracker::state::TrackerState;
use crate::listing::{lookup, lookup_after_with_entry, lookup_after_without_entry};
use crate::number::{Number, OrderedNumber};
use crate::text::decimal;

verus! {

/// Proceeds are price times units, less the tax, which is given in percent; a
/// tax below zero counts as none.
pub proof fn proceeds_are_taxed<N: Number>(price_per_unit: N, amount: u64, tax_rate: N)
    ensures
        tax_rate.spec_larger(N::whole(0)) == tax_rate ==> sell_after_tax(
            price_per_unit,
            amount,
            tax_rate,
        ) == price_per_unit.spec_times(N::whole(amount)).spec_times(
            N::whole(1).spec_minus(tax_rate.spec_over(N::whole(100))),
        ),
        tax_rate.spec_larger(N::whole(0)) == N::whole(0) ==> sell_after_tax(
            price_per_unit,
            amount,
            tax_rate,
        ) == price_per_unit.spec_times(N::whole(amount)).spec_times(
            N::whole(1).spec_minus(N::whole(0).spec_over(N::whole(100))),
        ),
{
}

/// A sell order is allowed only where its proceeds after tax exceed the cost of
/// the oldest units: the announced proceeds are never at most the announced
/// cost, and they are the price of all units less the tax.
pub proof fn allowed_sells_earn_more_than_they_cost<N: Number>(
    s: TrackerState<N>,
    item_name: Seq<char>,
    amount: u64,
    price_per_unit: N,
    tax_rate: N,
)
    ensures
        ({
            let check = s.sell_check(item_name, amount, price_per_unit, tax_rate);
            let left = N::whole(1).spec_minus(
                tax_rate.spec_larger(N::whole(0)).spec_over(N::whole(100)),
            );
            &&& check.expected_sell_after_tax == price_per_unit.spec_times(
                N::whole(amount),
            ).spec_times(left)
            &&& check.amount == amount
            &&& check.allowed ==> {
                &&& check.reason is None
                &&& !check.expected_sell_after_tax.spec_at_most(check.fifo_cost_basis_total)
                &&& amount > 0
                &&& !price_per_unit.spec_at_most(N::whole(0))
                &&& amount <= amount_sum(s.lots_of(item_name))
                &&& check.fifo_cost_basis_total == usage_cost(
                    used_lots(s.lots_of(item_name), amount),
                )
            }
        }),
{
}

/// A sell order with units and a price whose units are all held is answered by
/// its proceeds: where they do not exceed the cost of the oldest units the
/// answer is that it would lose, else it is allowed.
pub proof fn sells_at_a_loss_are_refused<N: Number>(
    s: TrackerState<N>,
    item_name: Seq<char>,
    amount: u64,
    price_per_unit: N,
    tax_rate: N,
)
    requires
        0 < amount <= amount_sum(s.lots_of(item_name)),
        !price_per_unit.spec_at_most(N::whole(0)),
    ensures
        ({
            let check = s.sell_check(item_name, amount, price_per_unit, tax_rate);
            let cost = usage_cost(used_lots(s.lots_of(item_name), amount));
            let proceeds = price_per_unit.spec_times(N::whole(amount)).spec_times(
                N::whole(1).spec_minus(
                    tax_rate.spec_larger(N::whole(0)).spec_over(N::whole(100)),
                ),
            );
            &&& check.fifo_cost_basis_total == cost
            &&& proceeds.spec_at_most(cost) ==> !check.allowed && check.reason == Some(
                SellBlockReason::NegativeExpectedProfit,
            )
            &&& !proceeds.spec_at_most(cost) ==> check.allowed && check.reason is None
        }),
{
}

/// Without units or a price a sell is invalid; with both, its cost is unknown
/// where the lots hold fewer units.
pub proof fn sells_without_lots_are_refused<N: Number>(
    s: TrackerState<N>,
    item_name: Seq<char>,
    amount: u64,
    price_per_unit: N,
    tax_rate: N,
)
    ensures
        ({
            let check = s.sell_check(item_name, amount, price_per_unit, tax_rate);
            &&& check.allowed <==> check.reason is None
            &&& check.reason == Some(SellBlockReason::InvalidSell) <==> amount == 0
                || price_per_unit.spec_at_most(N::whole(0))
            &&& check.reason == Some(SellBlockReason::UnknownCostBasis) <==> amount > 0
                && !price_per_unit.spec_at_most(N::whole(0)) && amount > amount_sum(
                s.lots_of(item_name),
            )
            &&& check.reason == Some(SellBlockReason::InvalidSell) || check.reason == Some(
                SellBlockReason::UnknownCostBasis,
            ) ==> check.fifo_cost_basis_total == N::whole(0)
        }),
{
}

/// Units of a single lot cost what the lot did, each.
pub proof fn single_lots_cost_their_price<N: Number>(
    s: TrackerState<N>,
    item_name: Seq<char>,
    lot: BuyCostLot<N>,
    amount: u64,
)
    requires
        s.lots_of(item_name) == seq![lot],
    ensures
        s.cost_basis(item_name, amount) == if 0 < amount <= lot.amount {
            Some(N::whole(0).spec_plus(lot.price_per_unit.spec_times(N::whole(amount))))
        } else {
            None
        },
{
    let lots = seq![lot];
    assert(lots.drop_last() =~= Seq::empty());
    assert(lots.drop_first() =~= Seq::empty());
    assert(amount_sum(lots) == lot.amount) by {
        assert(amount_sum(lots.drop_last()) == 0);
    }
    if 0 < amount <= lot.amount {
        let used = used_lots(lots, amount);
        assert(used_lots(lots.drop_first(), 0) =~= Seq::empty());
        assert(used =~= seq![usage(lot, amount)]);
        assert(used.drop_last() =~= Seq::empty());
        assert(usage_cost(used.drop_last()) == N::whole(0));
    }
}

/// The used parts are priced as their lots were, in the order of the lots, and
/// together they hold the units that are sold.
pub proof fn used_units_cost_their_lots_price<N: Number>(lots: Seq<BuyCostLot<N>>, need: u64)
    requires
        need <= amount_sum(lots),
    ensures
        ({
            let used = used_lots(lots, need);
            &&& used.len() <= lots.len()
            &&& forall|i: int|
                0 <= i < used.len() ==> {
                    &&& (#[trigger] used[i]).price_per_unit == lots[i].price_per_unit
                    &&& used[i].total_cost == lots[i].price_per_unit.spec_times(
                        N::whole(used[i].amount),
                    )
                    &&& used[i].amount <= lots[i].amount
                    &&& i < used.len() - 1 ==> used[i].amount == lots[i].amount
                }
            &&& need > 0 ==> used.len() > 0
            &&& need == 0 ==> used.len() == 0
            &&& amount_sum(left_lots(lots, need)) == amount_sum(lots) - need
        }),
{
    fifo_conserves_units(lots, need);
    fifo_uses_oldest_lots(lots, need);
    if need > 0 {
        if lots.len() == 0 {
            assert(amount_sum(lots) == 0);
        }
    }
}

/// A sell that was refused for its loss counts as a failure and rests the item
/// for a quarter of an hour.
pub proof fn refused_losses_rest_the_item<N: Number>(
    s: TrackerState<N>,
    item_name: Seq<char>,
    amount: u64,
    price_per_unit: N,
    tax_rate: N,
    now: u64,
    other: Seq<char>,
)
    requires
        s.sell_check(item_name, amount, price_per_unit, tax_rate).reason == Some(
            SellBlockReason::NegativeExpectedProfit,
        ),
        now + 900 <= u64::MAX,
    ensures
        ({
            let before = s.performance_of(item_name);
            let after = s.after_sell_check(item_name, amount, price_per_unit, tax_rate, now);
            let p = after.performance_of(item_name);
            &&& p.cooldown_until == Some((now + 900) as u64)
            &&& p.block_reason == Some("NEGATIVE_EXPECTED_PROFIT"@)
            &&& p.last_failure_timestamp == Some(now)
            &&& p.negative_profit_block_count == before.negative_profit_block_count.wrapping_add(1)
            &&& p.failed_flips == before.failed_flips.wrapping_add(1)
            &&& p.successful_flips == before.successful_flips
            &&& p.unknown_cost_basis_count == before.unknown_cost_basis_count
            &&& match_key(other) != match_key(item_name) ==> lookup(
                after.performance,
                match_key(other),
            ) == lookup(s.performance, match_key(other))
        }),
{
    lookup_after_with_entry(
        s.performance,
        match_key(item_name),
        s.performance_of(item_name).loss_refused(now),
        match_key(other),
    );
}

/// A sell that was refused for its unknown cost is counted as such, and the
/// item does not rest for it. A sell that is allowed or invalid leaves no trace.
pub proof fn unknown_costs_are_counted<N: Number>(
    s: TrackerState<N>,
    item_name: Seq<char>,
    amount: u64,
    price_per_unit: N,
    tax_rate: N,
    now: u64,
    other: Seq<char>,
)
    ensures
        ({
            let before = s.performance_of(item_name);
            let check = s.sell_check(item_name, amount, price_per_unit, tax_rate);
            let after = s.after_sell_check(item_name, amount, price_per_unit, tax_rate, now);
            let p = after.performance_of(item_name);
            &&& check.reason == Some(SellBlockReason::UnknownCostBasis) ==> {
                &&& p.unknown_cost_basis_count == before.unknown_cost_basis_count.wrapping_add(1)
                &&& p.block_reason == Some("UNKNOWN_COST_BASIS"@)
                &&& p.last_failure_timestamp == Some(now)
                &&& p.cooldown_until == before.cooldown_until
                &&& p.failed_flips == before.failed_flips
                &&& p.negative_profit_block_count == before.negative_profit_block_count
            }
            &&& check.allowed || check.reason == Some(SellBlockReason::InvalidSell) ==> after == s
        }),
{
    lookup_after_with_entry(
        s.performance,
        match_key(item_name),
        s.performance_of(item_name).cost_unknown(now),
        match_key(other),
    );
}

/// A recorded buy becomes the newest lot of its item, at its price, with its
/// units and the time of its collection. One without units or without a price
/// changes nothing, and no other item is touched.
pub proof fn recorded_buys_become_the_newest_lot<N: Number>(
    s: TrackerState<N>,
    item_name: Seq<char>,
    price_per_unit: N,
    amount: u64,
    now: u64,
    other: Seq<char>,
)
    ensures
        ({
            let after = s.after_buy_cost(item_name, price_per_unit, amount, now);
            let before = s.lots_of(item_name);
            let lots = after.lots_of(item_name);
            &&& amount == 0 || price_per_unit.spec_at_most(N::whole(0)) ==> after == s
            &&& amount > 0 && !price_per_unit.spec_at_most(N::whole(0)) ==> {
                &&& lots.len() == before.len() + 1
                &&& lots.last().price_per_unit == price_per_unit
                &&& lots.last().amount == amount
                &&& lots.last().collected_at == now
                &&& forall|i: int| 0 <= i < before.len() ==> #[trigger] lots[i] == before[i]
            }
            &&& match_key(other) != match_key(item_name) ==> after.lots_of(other) == s.lots_of(
                other,
            )
            &&& after.orders == s.orders
            &&& after.accounts == s.accounts
            &&& after.performance == s.performance
            &&& after.planned == s.planned
            &&& after.sell_fills == s.sell_fills
        }),
{
    let more = s.lots_of(item_name).push(BuyCostLot { price_per_unit, amount, collected_at: now });
    lookup_after_with_entry(s.lots, match_key(item_name), more, match_key(other));
    lookup_after_with_entry(s.lots, match_key(item_name), more, match_key(item_name));
}

/// The claim for a collected sell is known where it is finite, above zero and
/// the listed value is known too.
pub proof fn claims_are_known_when_positive<N: Number>(claimed: N, gross_list_value: Option<N>)
    ensures
        is_known_claim(claimed, gross_list_value) <==> claimed.spec_is_finite()
            && !claimed.spec_at_most(N::whole(0)) && gross_list_value is Some,
{
}

/// A sell of which only some units are held realizes its share: the claim and
/// the listed value are taken in the ratio of held to sold units, and all held
/// units are used up.
pub proof fn partly_held_sells_realize_their_share<N: Number>(
    s: TrackerState<N>,
    item_name: Seq<char>,
    sold_amount: u64,
    claimed: N,
    gross_list_value: Option<N>,
)
    requires
        0 < amount_sum(s.lots_of(item_name)) < sold_amount,
        claimed.spec_is_finite(),
        !claimed.spec_at_most(N::whole(0)),
        gross_list_value is Some,
    ensures
        ({
            let audit = s.sell_audit(item_name, sold_amount, claimed, gross_list_value);
            let held = amount_sum(s.lots_of(item_name)) as u64;
            let part = N::whole(held).spec_over(N::whole(sold_amount));
            let cost = usage_cost(used_lots(s.lots_of(item_name), held));
            &&& audit.item_name == item_name
            &&& audit.cost_basis_status == CostBasisStatus::PartialKnownCostBasis
            &&& audit.sold_amount == held
            &&& audit.claimed_coins_after_tax == claimed.spec_times(part)
            &&& audit.gross_list_value == Some(gross_list_value->0.spec_times(part))
            &&& audit.cost_basis_total == cost
            &&& audit.realized_profit == claimed.spec_times(part).spec_minus(cost).spec_rounded()
            &&& audit.reason == Some(
                "partial_known_cost_basis: sold "@ + decimal(sold_amount) + ", known "@ + decimal(
                    held,
                ) + ", unknown "@ + decimal((sold_amount - held) as u64),
            )
        }),
{
    total_amount_is_bounded(s.lots_of(item_name));
}

/// A sell whose units are all held realizes the whole claim less their cost.
pub proof fn held_sells_realize_their_claim<N: Number>(
    s: TrackerState<N>,
    item_name: Seq<char>,
    sold_amount: u64,
    claimed: N,
    gross: N,
)
    requires
        0 < sold_amount <= amount_sum(s.lots_of(item_name)) <= u64::MAX,
        claimed.spec_is_finite(),
        !claimed.spec_at_most(N::whole(0)),
        gross.spec_is_finite(),
    ensures
        ({
            let audit = s.sell_audit(item_name, sold_amount, claimed, Some(gross));
            let used = used_lots(s.lots_of(item_name), sold_amount);
            &&& audit.item_name == item_name
            &&& audit.cost_basis_status == CostBasisStatus::Known
            &&& audit.sold_amount == sold_amount
            &&& audit.claimed_coins_after_tax == claimed
            &&& audit.gross_list_value == Some(gross)
            &&& audit.lots_used == used
            &&& audit.cost_basis_total == usage_cost(used)
            &&& audit.realized_profit == claimed.spec_minus(usage_cost(used)).spec_rounded()
            &&& audit.reason is None
        }),
{
    total_amount_is_bounded(s.lots_of(item_name));
    N::whole_over_itself(sold_amount);
    N::times_one(claimed);
    N::times_one(gross);
}

/// A sell is unaccounted where nothing was sold, where its claim is unknown or
/// where nothing of the item is held. It is then reported as it came, with the
/// reason, and realizes nothing.
pub proof fn unaccounted_sells_are_reported<N: Number>(
    s: TrackerState<N>,
    item_name: Seq<char>,
    sold_amount: u64,
    claimed: N,
    gross_list_value: Option<N>,
)
    requires
        amount_sum(s.lots_of(item_name)) <= u64::MAX,
    ensures
        ({
            let audit = s.sell_audit(item_name, sold_amount, claimed, gross_list_value);
            let known = claimed.spec_is_finite() && !claimed.spec_at_most(N::whole(0))
                && gross_list_value is Some;
            let unaccounted = audit.cost_basis_status == CostBasisStatus::UnknownCostBasis;
            &&& unaccounted <==> sold_amount == 0 || !known || amount_sum(s.lots_of(item_name)) == 0
            &&& unaccounted ==> {
                &&& audit.realized_profit == 0
                &&& audit.sold_amount == sold_amount
                &&& audit.claimed_coins_after_tax == claimed
                &&& audit.gross_list_value == gross_list_value
                &&& audit.lots_used.len() == 0
                &&& audit.cost_basis_total == N::whole(0)
                &&& audit.reason == Some(
                    if sold_amount == 0 {
                        "sold_amount_zero"@
                    } else if !known {
                        "missing_known_sell_claim_value"@
                    } else {
                        "insufficient_fifo_lots: needed "@ + decimal(sold_amount) + ", available "@
                            + decimal(0)
                    },
                )
            }
        }),
{
    total_amount_is_bounded(s.lots_of(item_name));
}

/// What a collected sell with a known profit leaves in the item's performance:
/// a gain counts as a success, anything else as a failure, an unknown part as a
/// failure more.
pub proof fn collected_sells_are_judged<N: Number>(
    s: TrackerState<N>,
    item_name: Seq<char>,
    sold_amount: u64,
    claimed: N,
    gross_list_value: Option<N>,
    now: u64,
)
    requires
        s.sell_audit(item_name, sold_amount, claimed, gross_list_value).cost_basis_status
            != CostBasisStatus::UnknownCostBasis,
    ensures
        ({
            let audit = s.sell_audit(item_name, sold_amount, claimed, gross_list_value);
            let before = s.performance_of(item_name);
            let p = s.after_sell_collect(
                item_name,
                sold_amount,
                claimed,
                gross_list_value,
                now,
            ).performance_of(item_name);
            let partial = audit.cost_basis_status == CostBasisStatus::PartialKnownCostBasis;
            let gain = audit.realized_profit > 0;
            let total = before.realized_profit_total.wrapping_add(audit.realized_profit);
            &&& p.sell_orders_filled == before.sell_orders_filled.wrapping_add(1)
            &&& p.realized_profit_total == total
            &&& gain ==> p.successful_flips == before.successful_flips.wrapping_add(1)
                && p.last_success_timestamp == Some(now)
            &&& !gain ==> p.successful_flips == before.successful_flips && p.last_success_timestamp
                == before.last_success_timestamp && p.last_failure_timestamp == Some(now)
            &&& gain && !partial ==> p.failed_flips == before.failed_flips
                && p.last_failure_timestamp == before.last_failure_timestamp
            &&& (gain && partial) || (!gain && !partial) ==> p.failed_flips
                == before.failed_flips.wrapping_add(1)
            &&& !gain && partial ==> p.failed_flips == before.failed_flips.wrapping_add(
                1,
            ).wrapping_add(1)
            &&& partial ==> p.unknown_cost_basis_count
                == before.unknown_cost_basis_count.wrapping_add(1) && p.last_failure_timestamp
                == Some(now)
            &&& !partial ==> p.unknown_cost_basis_count == before.unknown_cost_basis_count
            &&& p.avg_realized_profit_per_flip == N::signed(total).spec_over(
                N::whole(
                    if p.successful_flips == 0 {
                        1
                    } else {
                        p.successful_flips
                    },
                ),
            )
            &&& !gain ==> p.cooldown_until == before.cooldown_until && p.block_reason
                == before.block_reason
        }),
{
    let known = s.known_units(item_name, sold_amount);
    let audit = s.sell_audit(item_name, sold_amount, claimed, gross_list_value);
    lookup_after_with_entry(
        s.performance,
        match_key(item_name),
        s.performance_of(item_name).sold(
            audit.realized_profit,
            known < sold_amount,
            s.is_finished(item_name, left_lots(s.lots_of(item_name), known)),
            now,
        ),
        item_name,
    );
}

/// What a collected sell without a known cost leaves in the item's performance:
/// a failure, with the reason of its audit; no success and no profit.
pub proof fn unaccounted_sells_are_failures<N: Number>(
    s: TrackerState<N>,
    item_name: Seq<char>,
    sold_amount: u64,
    claimed: N,
    gross_list_value: Option<N>,
    now: u64,
)
    requires
        s.sell_audit(item_name, sold_amount, claimed, gross_list_value).cost_basis_status
            == CostBasisStatus::UnknownCostBasis,
    ensures
        ({
            let audit = s.sell_audit(item_name, sold_amount, claimed, gross_list_value);
            let before = s.performance_of(item_name);
            let p = s.after_sell_collect(
                item_name,
                sold_amount,
                claimed,
                gross_list_value,
                now,
            ).performance_of(item_name);
            &&& p.unknown_cost_basis_count == before.unknown_cost_basis_count.wrapping_add(1)
            &&& p.failed_flips == before.failed_flips.wrapping_add(1)
            &&& p.last_failure_timestamp == Some(now)
            &&& p.block_reason == audit.reason
            &&& p.successful_flips == before.successful_flips
            &&& p.realized_profit_total == before.realized_profit_total
            &&& p.sell_orders_filled == before.sell_orders_filled
            &&& p.cooldown_until == before.cooldown_until
        }),
{
    let audit = s.sell_audit(item_name, sold_amount, claimed, gross_list_value);
    lookup_after_with_entry(
        s.performance,
        match_key(item_name),
        s.performance_of(item_name).sold_at_unknown_cost(audit.reason, now),
        item_name,
    );
}

/// A collected sell is kept as the last audit, with its time; a sell whose cost
/// is not wholly known is counted; and neither orders nor earlier fills change.
pub proof fn collected_sells_are_noted<N: Number>(
    s: TrackerState<N>,
    item_name: Seq<char>,
    sold_amount: u64,
    claimed: N,
    gross_list_value: Option<N>,
    now: u64,
    other: Seq<char>,
)
    ensures
        ({
            let audit = s.sell_audit(item_name, sold_amount, claimed, gross_list_value);
            let after = s.after_sell_collect(
                item_name,
                sold_amount,
                claimed,
                gross_list_value,
                now,
            );
            &&& after.accounts.last_sell_audit == Some(audit)
            &&& after.accounts.last_sell_audit_at == Some(now)
            &&& after.accounts.ignored_legacy_profit_total == s.accounts.ignored_legacy_profit_total
            &&& audit.cost_basis_status == CostBasisStatus::Known
                ==> after.accounts.unknown_cost_basis_sells == s.accounts.unknown_cost_basis_sells
            &&& audit.cost_basis_status != CostBasisStatus::Known
                ==> after.accounts.unknown_cost_basis_sells
                == s.accounts.unknown_cost_basis_sells.wrapping_add(1)
            &&& after.orders == s.orders
            &&& after.sell_fills == s.sell_fills
            &&& after.list_profits == s.list_profits
            &&& match_key(other) != match_key(item_name) ==> lookup(
                after.performance,
                match_key(other),
            ) == lookup(s.performance, match_key(other))
            &&& s.is_valid() && match_key(other) != match_key(item_name) ==> lookup(
                after.planned,
                match_key(other),
            ) == lookup(s.planned, match_key(other))
        }),
{
    let known = s.known_units(item_name, sold_amount);
    let audit = s.sell_audit(item_name, sold_amount, claimed, gross_list_value);
    let left = left_lots(s.lots_of(item_name), known);
    lookup_after_with_entry(
        s.performance,
        match_key(item_name),
        s.performance_of(item_name).sold(
            audit.realized_profit,
            known < sold_amount,
            s.is_finished(item_name, left),
            now,
        ),
        match_key(other),
    );
    lookup_after_with_entry(
        s.performance,
        match_key(item_name),
        s.performance_of(item_name).sold_at_unknown_cost(audit.reason, now),
        match_key(other),
    );
    if s.is_valid() {
        lookup_after_without_entry(s.planned, match_key(item_name), match_key(other));
    }
}

/// An item is finished when what is left of it, what is on offer and what is
/// ordered are each worth a coin at most.
pub proof fn finished_items_bind_nothing<N: Number>(
    s: TrackerState<N>,
    item_name: Seq<char>,
    lots: Seq<BuyCostLot<N>>,
)
    ensures
        ({
            let one = N::whole(1);
            let key = match_key(item_name);
            let bought = orders_value(s.orders.filter(active_for(key, true)));
            let offered = orders_value(s.orders.filter(active_for(key, false)));
            &&& s.is_finished(item_name, lots) ==> lots_value(lots).spec_at_most(one)
            &&& s.is_finished(item_name, lots) ==> bought.spec_at_most(one)
            &&& s.is_finished(item_name, lots) ==> offered.spec_at_most(one)
            &&& lots_value(lots).spec_at_most(one) && bought.spec_at_most(one)
                && offered.spec_at_most(one) ==> s.is_finished(item_name, lots)
        }),
{
}

/// The newest units go first when units are missing: the lots that are kept are
/// the oldest, unchanged but for the last, which may have lost some of its
/// units.
pub proof fn oldest_lots_are_kept<N>(lots: Seq<BuyCostLot<N>>, excess: u64)
    ensures
        ({
            let kept = kept_lots(lots, excess);
            &&& kept.len() <= lots.len()
            &&& forall|i: int|
                0 <= i < kept.len() ==> {
                    &&& (#[trigger] kept[i]).price_per_unit == lots[i].price_per_unit
                    &&& kept[i].collected_at == lots[i].collected_at
                    &&& kept[i].amount <= lots[i].amount
                    &&& i < kept.len() - 1 ==> kept[i].amount == lots[i].amount
                }
        }),
    decreases lots.len(),
{
    if excess != 0 && lots.len() != 0 && lots.last().amount <= excess {
        oldest_lots_are_kept(lots.drop_last(), (excess - lots.last().amount) as u64);
    }
}

/// Missing units go until as many are left as are kept. What went is counted as
/// failures and rests the item for half an hour; where nothing is missing
/// nothing changes.
pub proof fn missing_units_rest_the_item<N: Number>(
    s: TrackerState<N>,
    item_name: Seq<char>,
    keep_amount: u64,
    now: u64,
)
    requires
        amount_sum(s.lots_of(item_name)) <= u64::MAX,
        now + 1800 <= u64::MAX,
    ensures
        ({
            let held = amount_sum(s.lots_of(item_name));
            let before = s.performance_of(item_name);
            let after = s.after_excess_missing(item_name, keep_amount, now);
            let p = after.performance_of(item_name);
            let missing = s.missing_units(item_name, keep_amount);
            &&& held <= keep_amount ==> after == s && missing is None
            &&& held > keep_amount ==> {
                &&& missing == Some(
                    (
                        (held - keep_amount) as u64,
                        usage_cost(
                            dropped_lots(s.lots_of(item_name), (held - keep_amount) as u64),
                        ),
                    ),
                )
                &&& p.failed_flips == before.failed_flips.wrapping_add((held - keep_amount) as u64)
                &&& p.last_failure_timestamp == Some(now)
                &&& p.cooldown_until == Some((now + 1800) as u64)
                &&& p.block_reason == Some("COST_LOT_NOT_IN_INVENTORY"@)
                &&& p.successful_flips == before.successful_flips
                &&& after.orders == s.orders
                &&& after.accounts == s.accounts
            }
        }),
{
    total_amount_is_bounded(s.lots_of(item_name));
    let excess = s.excess_units(item_name, keep_amount);
    lookup_after_with_entry(
        s.performance,
        match_key(item_name),
        s.performance_of(item_name).units_missing(excess, now),
        item_name,
    );
}

/// What goes missing is priced as its lots were, newest first.
pub proof fn missing_units_cost_their_lots_price<N: Number>(lots: Seq<BuyCostLot<N>>, excess: u64)
    ensures
        ({
            let gone = dropped_lots(lots, excess);
            &&& gone.len() <= lots.len()
            &&& forall|i: int|
                0 <= i < gone.len() ==> {
                    let lot = lots[lots.len() - 1 - i];
                    &&& (#[trigger] gone[i]).price_per_unit == lot.price_per_unit
                    &&& gone[i].total_cost == lot.price_per_unit.spec_times(
                        N::whole(gone[i].amount),
                    )
                    &&& gone[i].amount <= lot.amount
                    &&& i < gone.len() - 1 ==> gone[i].amount == lot.amount
                }
        }),
    decreases lots.len(),
{
    if excess != 0 && lots.len() != 0 {
        let first = if excess <= lots.last().amount {
            excess
        } else {
            lots.last().amount
        };
        let rest = dropped_lots(lots.drop_last(), (excess - first) as u64);
        missing_units_cost_their_lots_price(lots.drop_last(), (excess - first) as u64);
        let gone = dropped_lots(lots, excess);
        assert(gone == seq![usage(lots.last(), first)] + rest);
        assert forall|i: int| 0 <= i < gone.len() implies {
            let lot = lots[lots.len() - 1 - i];
            &&& (#[trigger] gone[i]).price_per_unit == lot.price_per_unit
            &&& gone[i].total_cost == lot.price_per_unit.spec_times(N::whole(gone[i].amount))
            &&& gone[i].amount <= lot.amount
            &&& i < gone.len() - 1 ==> gone[i].amount == lot.amount
        } by {
            if i > 0 {
                assert(gone[i] == rest[i - 1]);
                assert(lots.drop_last()[lots.len() - 2 - (i - 1)] == lots[lots.len() - 1 - i]);
            }
        }
    }
}

/// A higher price never turns a sell order that is allowed into one that is not,
/// whatever the tax, as long as it leaves something of the proceeds.
pub proof fn dearer_sells_stay_allowed<N: OrderedNumber>(
    s: TrackerState<N>,
    item_name: Seq<char>,
    amount: u64,
    price: N,
    dearer: N,
    tax_rate: N,
)
    requires
        s.sell_check(item_name, amount, price, tax_rate).allowed,
        price.spec_at_most(dearer),
        price.spec_is_finite(),
        dearer.spec_is_finite(),
        price.spec_times(N::whole(amount)).spec_is_finite(),
        dearer.spec_times(N::whole(amount)).spec_is_finite(),
        ({
            let left = N::whole(1).spec_minus(
                tax_rate.spec_larger(N::whole(0)).spec_over(N::whole(100)),
            );
            left.spec_is_finite() && !left.spec_below(N::whole(0))
        }),
    ensures
        s.sell_check(item_name, amount, dearer, tax_rate).allowed,
        s.sell_check(item_name, amount, price, tax_rate).expected_sell_after_tax.spec_at_most(
            s.sell_check(item_name, amount, dearer, tax_rate).expected_sell_after_tax,
        ),
{
    let units = N::whole(amount);
    let left = N::whole(1).spec_minus(
        tax_rate.spec_larger(N::whole(0)).spec_over(N::whole(100)),
    );
    let less = price.spec_times(units);
    let more = dearer.spec_times(units);
    let cost = s.cost_basis(item_name, amount)->0;
    N::whole_is_not_negative(amount);
    N::times_keeps_order(price, dearer, units);
    N::times_keeps_order(less, more, left);
    if dearer.spec_at_most(N::whole(0)) {
        N::at_most_is_transitive(price, dearer, N::whole(0));
    }
    if more.spec_times(left).spec_at_most(cost) {
        N::at_most_is_transitive(less.spec_times(left), more.spec_times(left), cost);
    }
}

/// A higher tax never lets a sell order pass that would lose already.
pub proof fn higher_taxes_free_no_sells<N: OrderedNumber>(
    s: TrackerState<N>,
    item_name: Seq<char>,
    amount: u64,
    price: N,
    tax_rate: N,
    higher: N,
)
    requires
        s.sell_check(item_name, amount, price, tax_rate).reason == Some(
            SellBlockReason::NegativeExpectedProfit,
        ),
        tax_rate.spec_at_most(higher),
        tax_rate.spec_is_finite(),
        higher.spec_is_finite(),
        price.spec_times(N::whole(amount)).spec_is_finite(),
        !price.spec_times(N::whole(amount)).spec_below(N::whole(0)),
        ({
            let paid = tax_rate.spec_larger(N::whole(0)).spec_over(N::whole(100));
            let paid_more = higher.spec_larger(N::whole(0)).spec_over(N::whole(100));
            &&& paid.spec_is_finite()
            &&& paid_more.spec_is_finite()
            &&& N::whole(1).spec_minus(paid).spec_is_finite()
            &&& N::whole(1).spec_minus(paid_more).spec_is_finite()
        }),
    ensures
        s.sell_check(item_name, amount, price, higher).reason == Some(
            SellBlockReason::NegativeExpectedProfit,
        ),
{
    let zero = N::whole(0);
    let gross = price.spec_times(N::whole(amount));
    let paid = tax_rate.spec_larger(zero).spec_over(N::whole(100));
    let paid_more = higher.spec_larger(zero).spec_over(N::whole(100));
    let left = N::whole(1).spec_minus(paid);
    let left_less = N::whole(1).spec_minus(paid_more);
    let cost = s.cost_basis(item_name, amount)->0;
    N::whole_is_not_negative(0);
    N::whole_is_not_negative(1);
    N::whole_is_not_negative(100);
    N::larger_is_greatest(tax_rate, zero);
    N::larger_is_greatest(higher, zero);
    N::smaller_keeps_order(tax_rate, higher, zero);
    N::whole_keeps_order(0, 100);
    N::over_keeps_order(tax_rate.spec_larger(zero), higher.spec_larger(zero), N::whole(100));
    N::plus_keeps_order(paid, paid_more, N::whole(1));
    N::times_keeps_order(left_less, left, gross);
    N::at_most_is_transitive(gross.spec_times(left_less), gross.spec_times(left), cost);
}

/// A larger claim for the same units never realizes less profit.
pub proof fn larger_claims_realize_no_less<N: OrderedNumber>(
    s: TrackerState<N>,
    item_name: Seq<char>,
    sold_amount: u64,
    claimed: N,
    more: N,
    gross: N,
)
    requires
        0 < sold_amount <= amount_sum(s.lots_of(item_name)) <= u64::MAX,
        claimed.spec_is_finite(),
        more.spec_is_finite(),
        gross.spec_is_finite(),
        !claimed.spec_at_most(N::whole(0)),
        claimed.spec_at_most(more),
        usage_cost(used_lots(s.lots_of(item_name), sold_amount)).spec_is_finite(),
    ensures
        s.sell_audit(item_name, sold_amount, claimed, Some(gross)).realized_profit <= s.sell_audit(
            item_name,
            sold_amount,
            more,
            Some(gross),
        ).realized_profit,
{
    let cost = usage_cost(used_lots(s.lots_of(item_name), sold_amount));
    if more.spec_at_most(N::whole(0)) {
        N::at_most_is_transitive(claimed, more, N::whole(0));
    }
    held_sells_realize_their_claim(s, item_name, sold_amount, claimed, gross);
    held_sells_realize_their_claim(s, item_name, sold_amount, more, gross);
    N::plus_keeps_order(claimed, more, cost);
    N::rounded_keeps_order(claimed.spec_minus(cost), more.spec_minus(cost));
}

/// Taking the cost of an item tells what all its units have cost together over
/// how many they are, and leaves no lot of it; lots of other items stay.
pub proof fn taken_costs_are_averages<N: Number>(
    s: TrackerState<N>,
    item_name: Seq<char>,
    other: Seq<char>,
)
    requires
        s.is_valid(),
        amount_sum(s.lots_of(item_name)) <= u64::MAX,
    ensures
        ({
            let held = amount_sum(s.lots_of(item_name));
            let after = s.with_lots(item_name, Seq::empty());
            &&& held == 0 ==> s.average_cost(item_name) is None
            &&& held > 0 ==> s.average_cost(item_name) == Some(
                (lots_value(s.lots_of(item_name)).spec_over(N::whole(held as u64)), held as u64),
            )
            &&& after.lots_of(item_name).len() == 0
            &&& match_key(other) != match_key(item_name) ==> after.lots_of(other) == s.lots_of(
                other,
            )
        }),
{
    total_amount_is_bounded(s.lots_of(item_name));
    lookup_after_without_entry(s.lots, match_key(item_name), match_key(other));
}

/// What parts of lots cost adds up part by part.
pub proof fn parts_add_up<N: Number>(used: Seq<BuyCostLotUsage<N>>, more: BuyCostLotUsage<N>)
    ensures
        usage_cost(Seq::<BuyCostLotUsage<N>>::empty()) == N::whole(0),
        usage_cost(used.push(more)) == usage_cost(used).spec_plus(more.total_cost),
{
    assert(used.push(more).drop_last() =~= used);
}

/// Units that the oldest lot cannot serve come from the next one, at its price.
pub proof fn the_next_lot_serves_the_rest<N: Number>(
    s: TrackerState<N>,
    item_name: Seq<char>,
    first: BuyCostLot<N>,
    second: BuyCostLot<N>,
    amount: u64,
)
    requires
        s.lots_of(item_name) == seq![first, second],
        first.amount < amount <= first.amount + second.amount,
    ensures
        s.cost_basis(item_name, amount) == Some(
            N::whole(0).spec_plus(
                first.price_per_unit.spec_times(N::whole(first.amount)),
            ).spec_plus(
                second.price_per_unit.spec_times(N::whole((amount - first.amount) as u64)),
            ),
        ),
        left_lots(s.lots_of(item_name), amount) == (if amount < first.amount + second.amount {
            seq![
                BuyCostLot {
                    amount: (first.amount + second.amount - amount) as u64,
                    ..second
                },
            ]
        } else {
            Seq::empty()
        }),
{
    let lots = seq![first, second];
    let rest = seq![second];
    let need = (amount - first.amount) as u64;
    assert(lots.drop_first() =~= rest);
    assert(rest.drop_first() =~= Seq::empty());
    amount_sum_of_first(lots);
    amount_sum_of_first(rest);
    assert(amount_sum(Seq::<BuyCostLot<N>>::empty()) == 0);
    let a = usage(first, first.amount);
    let b = usage(second, need);
    assert(used_lots(rest.drop_first(), 0) =~= Seq::empty());
    assert(used_lots(rest, need) =~= seq![b]);
    assert(used_lots(lots, amount) =~= seq![a, b]);
    assert(seq![a, b] =~= seq![a].push(b));
    assert(seq![a] =~= Seq::<BuyCostLotUsage<N>>::empty().push(a));
    parts_add_up(seq![a], b);
    parts_add_up(Seq::<BuyCostLotUsage<N>>::empty(), a);
    assert(left_lots(lots, amount) == left_lots(rest, need));
    assert(left_lots(Seq::<BuyCostLot<N>>::empty(), 0) =~= Seq::empty());
    if need < second.amount {
        assert(left_lots(rest, need) =~= seq![reduced(second, need)]);
    }
}

/// A collected sell leaves the lots of its item as the oldest units leave them.
pub proof fn collected_sells_use_the_oldest_units<N: Number>(
    s: TrackerState<N>,
    item_name: Seq<char>,
    sold_amount: u64,
    claimed: N,
    gross_list_value: Option<N>,
    now: u64,
)
    requires
        s.is_valid(),
    ensures
        ({
            let audit = s.sell_audit(item_name, sold_amount, claimed, gross_list_value);
            let after = s.after_sell_collect(
                item_name,
                sold_amount,
                claimed,
                gross_list_value,
                now,
            );
            &&& audit.cost_basis_status != CostBasisStatus::UnknownCostBasis ==> after.lots_of(
                item_name,
            ) == left_lots(s.lots_of(item_name), audit.sold_amount) && audit.lots_used == used_lots(
                s.lots_of(item_name),
                audit.sold_amount,
            )
            &&& audit.cost_basis_status == CostBasisStatus::UnknownCostBasis ==> after.lots_of(
                item_name,
            ) == s.lots_of(item_name)
        }),
{
    let left = left_lots(s.lots_of(item_name), s.known_units(item_name, sold_amount));
    lookup_after_with_entry(s.lots, match_key(item_name), left, match_key(item_name));
    lookup_after_without_entry(s.lots, match_key(item_name), match_key(item_name));
    if left.len() == 0 {
        assert(left =~= Seq::empty());
    }
}

/// Missing units leave the oldest units of their item; with the last of them its
/// planned sell ends, and not before. Other items are not touched.
pub proof fn missing_units_leave_the_oldest<N: Number>(
    s: TrackerState<N>,
    item_name: Seq<char>,
    keep_amount: u64,
    now: u64,
    other: Seq<char>,
)
    requires
        s.is_valid(),
        keep_amount < amount_sum(s.lots_of(item_name)) <= u64::MAX,
    ensures
        ({
            let held = amount_sum(s.lots_of(item_name));
            let after = s.after_excess_missing(item_name, keep_amount, now);
            let kept = kept_lots(s.lots_of(item_name), (held - keep_amount) as u64);
            &&& after.lots_of(item_name) == kept
            &&& amount_sum(after.lots_of(item_name)) == keep_amount
            &&& kept.len() == 0 ==> lookup(after.planned, match_key(item_name)) is None
            &&& kept.len() > 0 ==> after.planned == s.planned
            &&& match_key(other) != match_key(item_name) ==> {
                &&& after.lots_of(other) == s.lots_of(other)
                &&& lookup(after.planned, match_key(other)) == lookup(s.planned, match_key(other))
                &&& lookup(after.performance, match_key(other)) == lookup(
                    s.performance,
                    match_key(other),
                )
            }
        }),
{
    let lots = s.lots_of(item_name);
    total_amount_is_bounded(lots);
    let excess = s.excess_units(item_name, keep_amount);
    let kept = kept_lots(lots, excess);
    dropping_conserves_units(lots, excess);
    lookup_after_with_entry(s.lots, match_key(item_name), kept, match_key(other));
    lookup_after_with_entry(s.lots, match_key(item_name), kept, match_key(item_name));
    lookup_after_without_entry(s.lots, match_key(item_name), match_key(other));
    lookup_after_without_entry(s.planned, match_key(item_name), match_key(other));
    lookup_after_with_entry(
        s.performance,
        match_key(item_name),
        s.performance_of(item_name).units_missing(excess, now),
        match_key(other),
    );
    if kept.len() == 0 {
        assert(kept =~= Seq::empty());
    }
}

} // verus!
