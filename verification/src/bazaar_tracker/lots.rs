//! First-in-first-out cost lots: sales use up the oldest lots first, and lots
//! that turn out to be missing go from the newest.

use std::collections::VecDeque;

use vstd::prelude::*;

use crate::bazaar_tracker::records::{BuyCostLot, BuyCostLotUsage};
use crate::number::Number;

verus! {

pub open spec fn lot_value<N: Number>(lot: BuyCostLot<N>) -> N {
    lot.price_per_unit.spec_times(N::whole(lot.amount))
}

/// What the lots cost together.
pub open spec fn lots_value<N: Number>(lots: Seq<BuyCostLot<N>>) -> N
    decreases lots.len(),
{
    if lots.len() == 0 {
        N::whole(0)
    } else {
        lots_value(lots.drop_last()).spec_plus(lot_value(lots.last()))
    }
}

/// How many units the lots hold.
pub open spec fn amount_sum<N>(lots: Seq<BuyCostLot<N>>) -> nat
    decreases lots.len(),
{
    if lots.len() == 0 {
        0
    } else {
        amount_sum(lots.drop_last()) + lots.last().amount as nat
    }
}

/// How many units the lots hold, counted in 64 bits: the count wraps around.
pub open spec fn total_amount<N>(lots: Seq<BuyCostLot<N>>) -> u64
    decreases lots.len(),
{
    if lots.len() == 0 {
        0
    } else {
        total_amount(lots.drop_last()).wrapping_add(lots.last().amount)
    }
}

/// `amount` units of a lot, at its price.
pub open spec fn usage<N: Number>(lot: BuyCostLot<N>, amount: u64) -> BuyCostLotUsage<N> {
    BuyCostLotUsage {
        price_per_unit: lot.price_per_unit,
        amount,
        total_cost: lot.price_per_unit.spec_times(N::whole(amount)),
    }
}

pub open spec fn smaller_of(a: u64, b: u64) -> u64 {
    if a <= b {
        a
    } else {
        b
    }
}

/// What `lot` keeps when `amount` units of it go.
pub open spec fn reduced<N>(lot: BuyCostLot<N>, amount: u64) -> BuyCostLot<N> {
    BuyCostLot { amount: (lot.amount - amount) as u64, ..lot }
}

/// The parts of the oldest lots that make up `need` units.
pub open spec fn used_lots<N: Number>(lots: Seq<BuyCostLot<N>>, need: u64) -> Seq<
    BuyCostLotUsage<N>,
>
    decreases lots.len(),
{
    if need == 0 || lots.len() == 0 {
        Seq::empty()
    } else {
        let used = smaller_of(need, lots[0].amount);
        seq![usage(lots[0], used)] + used_lots(lots.drop_first(), (need - used) as u64)
    }
}

/// The lots that are left when the oldest `need` units are used.
pub open spec fn left_lots<N>(lots: Seq<BuyCostLot<N>>, need: u64) -> Seq<BuyCostLot<N>>
    decreases lots.len(),
{
    if need == 0 || lots.len() == 0 {
        lots
    } else if lots[0].amount > need {
        seq![reduced(lots[0], need)] + lots.drop_first()
    } else {
        left_lots(lots.drop_first(), (need - lots[0].amount) as u64)
    }
}

/// The parts of the newest lots that make up `excess` units, newest first.
pub open spec fn dropped_lots<N: Number>(lots: Seq<BuyCostLot<N>>, excess: u64) -> Seq<
    BuyCostLotUsage<N>,
>
    decreases lots.len(),
{
    if excess == 0 || lots.len() == 0 {
        Seq::empty()
    } else {
        let gone = smaller_of(excess, lots.last().amount);
        seq![usage(lots.last(), gone)] + dropped_lots(lots.drop_last(), (excess - gone) as u64)
    }
}

/// The lots that are left when the newest `excess` units are dropped.
pub open spec fn kept_lots<N>(lots: Seq<BuyCostLot<N>>, excess: u64) -> Seq<BuyCostLot<N>>
    decreases lots.len(),
{
    if excess == 0 || lots.len() == 0 {
        lots
    } else if lots.last().amount > excess {
        lots.drop_last().push(reduced(lots.last(), excess))
    } else {
        kept_lots(lots.drop_last(), (excess - lots.last().amount) as u64)
    }
}

/// What the parts cost together.
pub open spec fn usage_cost<N: Number>(used: Seq<BuyCostLotUsage<N>>) -> N
    decreases used.len(),
{
    if used.len() == 0 {
        N::whole(0)
    } else {
        usage_cost(used.drop_last()).spec_plus(used.last().total_cost)
    }
}

/// How many units the parts hold.
pub open spec fn usage_sum<N>(used: Seq<BuyCostLotUsage<N>>) -> nat
    decreases used.len(),
{
    if used.len() == 0 {
        0
    } else {
        usage_sum(used.drop_last()) + used.last().amount as nat
    }
}

pub proof fn amount_sum_of_first<N>(lots: Seq<BuyCostLot<N>>)
    requires
        lots.len() > 0,
    ensures
        amount_sum(lots) == lots[0].amount as nat + amount_sum(lots.drop_first()),
    decreases lots.len(),
{
    let rest = lots.drop_first();
    if lots.len() > 1 {
        amount_sum_of_first(lots.drop_last());
        assert(lots.drop_last().drop_first() =~= rest.drop_last());
    } else {
        assert(lots.drop_last() =~= Seq::empty());
        assert(rest =~= Seq::empty());
    }
}

pub proof fn usage_sum_of_first<N>(first: BuyCostLotUsage<N>, rest: Seq<BuyCostLotUsage<N>>)
    ensures
        usage_sum(seq![first] + rest) == first.amount as nat + usage_sum(rest),
    decreases rest.len(),
{
    let all = seq![first] + rest;
    if rest.len() == 0 {
        assert(all.drop_last() =~= Seq::empty());
        assert(usage_sum(all.drop_last()) == 0);
    } else {
        usage_sum_of_first(first, rest.drop_last());
        assert(all.last() == rest.last());
        assert(all.drop_last() =~= seq![first] + rest.drop_last());
    }
}

/// The count of units never exceeds the true sum, and is the true sum as long
/// as that fits into 64 bits.
pub proof fn total_amount_is_bounded<N>(lots: Seq<BuyCostLot<N>>)
    ensures
        total_amount(lots) <= amount_sum(lots),
        amount_sum(lots) <= u64::MAX ==> total_amount(lots) == amount_sum(lots),
    decreases lots.len(),
{
    if lots.len() > 0 {
        total_amount_is_bounded(lots.drop_last());
    }
}

/// A sale uses exactly the units it needs, no unit is lost, and the lots that
/// are left hold the rest.
pub proof fn fifo_conserves_units<N: Number>(lots: Seq<BuyCostLot<N>>, need: u64)
    requires
        need <= amount_sum(lots),
    ensures
        usage_sum(used_lots(lots, need)) == need,
        amount_sum(left_lots(lots, need)) == amount_sum(lots) - need,
    decreases lots.len(),
{
    if need > 0 && lots.len() > 0 {
        amount_sum_of_first(lots);
        let used = smaller_of(need, lots[0].amount);
        let rest = lots.drop_first();
        usage_sum_of_first(usage(lots[0], used), used_lots(rest, (need - used) as u64));
        if lots[0].amount > need {
            let left = seq![reduced(lots[0], need)] + rest;
            amount_sum_of_first(left);
            assert(left.drop_first() =~= rest);
            assert(used_lots(rest, 0) =~= Seq::empty());
        } else {
            fifo_conserves_units(rest, (need - used) as u64);
        }
    }
}

/// First in, first out: the used parts come from the oldest lots in their
/// order, every part but the last is a whole lot, and the lots that no part
/// came from are left as they were.
pub proof fn fifo_uses_oldest_lots<N: Number>(lots: Seq<BuyCostLot<N>>, need: u64)
    ensures
        used_lots(lots, need).len() <= lots.len(),
        forall|i: int|
            0 <= i < used_lots(lots, need).len() ==> (#[trigger] used_lots(lots, need)[i])
                == usage(lots[i], used_lots(lots, need)[i].amount) && used_lots(lots, need)[i].amount
                <= lots[i].amount,
        forall|i: int|
            0 <= i < used_lots(lots, need).len() - 1 ==> (#[trigger] used_lots(lots, need)[i]).amount
                == lots[i].amount,
        left_lots(lots, need).len() >= lots.len() - used_lots(lots, need).len(),
        forall|j: int|
            used_lots(lots, need).len() <= j < lots.len() ==> #[trigger] lots[j] == left_lots(
                lots,
                need,
            )[j - lots.len() + left_lots(lots, need).len()],
    decreases lots.len(),
{
    let all = used_lots(lots, need);
    if need > 0 && lots.len() > 0 {
        let used = smaller_of(need, lots[0].amount);
        let rest = lots.drop_first();
        let more = used_lots(rest, (need - used) as u64);
        fifo_uses_oldest_lots(rest, (need - used) as u64);
        assert(all == seq![usage(lots[0], used)] + more);
        assert forall|i: int| 0 <= i < all.len() implies (#[trigger] all[i]) == usage(
            lots[i],
            all[i].amount,
        ) && all[i].amount <= lots[i].amount by {
            if i > 0 {
                assert(all[i] == more[i - 1]);
                assert(rest[i - 1] == lots[i]);
            }
        }
        assert forall|i: int| 0 <= i < all.len() - 1 implies (#[trigger] all[i]).amount
            == lots[i].amount by {
            if i > 0 {
                assert(all[i] == more[i - 1]);
                assert(rest[i - 1] == lots[i]);
            }
        }
        if lots[0].amount > need {
            assert(more =~= Seq::empty());
        }
        assert forall|j: int| all.len() <= j < lots.len() implies #[trigger] lots[j] == left_lots(
            lots,
            need,
        )[j - lots.len() + left_lots(lots, need).len()] by {
            assert(rest[j - 1] == lots[j]);
        }
    }
}

/// Selling in two parts leaves the same lots as selling at once.
pub proof fn partial_sales_add_up<N>(lots: Seq<BuyCostLot<N>>, first: u64, second: u64)
    requires
        first + second <= u64::MAX,
        first <= amount_sum(lots),
    ensures
        left_lots(left_lots(lots, first), second) == left_lots(lots, (first + second) as u64),
    decreases lots.len(),
{
    if first > 0 && lots.len() > 0 {
        amount_sum_of_first(lots);
        let rest = lots.drop_first();
        if lots[0].amount > first {
            let left = seq![reduced(lots[0], first)] + rest;
            assert(left.drop_first() =~= rest);
            assert(left[0] == reduced(lots[0], first));
        } else {
            partial_sales_add_up(rest, (first - lots[0].amount) as u64, second);
        }
    }
}

/// Dropping takes exactly the units asked for, and the lots that are left hold
/// the rest.
pub proof fn dropping_conserves_units<N: Number>(lots: Seq<BuyCostLot<N>>, excess: u64)
    requires
        excess <= amount_sum(lots),
    ensures
        usage_sum(dropped_lots(lots, excess)) == excess,
        amount_sum(kept_lots(lots, excess)) == amount_sum(lots) - excess,
    decreases lots.len(),
{
    if excess > 0 && lots.len() > 0 {
        let gone = smaller_of(excess, lots.last().amount);
        let rest = lots.drop_last();
        usage_sum_of_first(usage(lots.last(), gone), dropped_lots(rest, (excess - gone) as u64));
        if lots.last().amount > excess {
            let left = rest.push(reduced(lots.last(), excess));
            assert(left.drop_last() =~= rest);
            assert(dropped_lots(rest, 0) =~= Seq::empty());
        } else {
            dropping_conserves_units(rest, (excess - gone) as u64);
        }
    }
}

/// How many units the lots hold; the count wraps around.
pub(crate) fn count_units<N: Number>(lots: &VecDeque<BuyCostLot<N>>) -> (r: u64)
    ensures
        r == total_amount(lots@),
{
    let mut total: u64 = 0;
    let mut i: usize = 0;
    while i < lots.len()
        invariant
            i <= lots.len(),
            total == total_amount(lots@.take(i as int)),
        decreases lots.len() - i,
    {
        assert(lots@.take(i + 1).drop_last() == lots@.take(i as int));
        total = total.wrapping_add(lots[i].amount);
        i = i + 1;
    }
    assert(lots@.take(i as int) == lots@);
    total
}

/// What the lots cost together.
pub(crate) fn value_lots<N: Number>(lots: &VecDeque<BuyCostLot<N>>) -> (r: N)
    ensures
        r == lots_value(lots@),
{
    let mut total: N = N::from_u64(0);
    let mut i: usize = 0;
    while i < lots.len()
        invariant
            i <= lots.len(),
            total == lots_value(lots@.take(i as int)),
        decreases lots.len() - i,
    {
        assert(lots@.take(i + 1).drop_last() == lots@.take(i as int));
        total = total.plus(lots[i].price_per_unit.times(N::from_u64(lots[i].amount)));
        i = i + 1;
    }
    assert(lots@.take(i as int) == lots@);
    total
}

/// What the oldest `amount` units cost; `None` where the lots hold fewer.
pub(crate) fn quote_lots<N: Number>(lots: &VecDeque<BuyCostLot<N>>, amount: u64) -> (r: Option<N>)
    requires
        amount > 0,
    ensures
        r == (if amount <= amount_sum(lots@) {
            Some(usage_cost(used_lots(lots@, amount)))
        } else {
            None
        }),
{
    let mut remaining = amount;
    let mut total: N = N::from_u64(0);
    let mut i: usize = 0;
    let ghost mut used = Seq::<BuyCostLotUsage<N>>::empty();
    assert(lots@.skip(0) == lots@);
    assert(used + used_lots(lots@, amount) == used_lots(lots@, amount));
    while i < lots.len()
        invariant
            i <= lots.len(),
            0 < remaining,
            total == usage_cost(used),
            used + used_lots(lots@.skip(i as int), remaining) == used_lots(lots@, amount),
            amount_sum(lots@) - amount == amount_sum(lots@.skip(i as int)) - remaining,
        decreases lots.len() - i,
    {
        let lot = lots[i];
        let part = if remaining <= lot.amount {
            remaining
        } else {
            lot.amount
        };
        let ghost rest = lots@.skip(i as int);
        let ghost before = used;
        proof {
            amount_sum_of_first(rest);
            assert(rest.drop_first() == lots@.skip(i + 1));
            used = used.push(usage(lot, part));
            assert(used.drop_last() == before);
            assert(used + used_lots(lots@.skip(i + 1), (remaining - part) as u64) == before
                + used_lots(rest, remaining));
        }
        total = total.plus(lot.price_per_unit.times(N::from_u64(part)));
        remaining = remaining - part;
        if remaining == 0 {
            assert(used_lots(lots@.skip(i + 1), 0) == Seq::<BuyCostLotUsage<N>>::empty());
            assert(used == used_lots(lots@, amount));
            return Some(total);
        }
        i = i + 1;
    }
    assert(lots@.skip(i as int) == Seq::<BuyCostLot<N>>::empty());
    None
}

/// Uses up the oldest `need` units and returns the parts with their cost.
pub(crate) fn consume_lots<N: Number>(lots: &mut VecDeque<BuyCostLot<N>>, need: u64) -> (r: (
    Vec<BuyCostLotUsage<N>>,
    N,
))
    requires
        need <= amount_sum(old(lots)@),
    ensures
        final(lots)@ == left_lots(old(lots)@, need),
        r.0@ == used_lots(old(lots)@, need),
        r.1 == usage_cost(used_lots(old(lots)@, need)),
{
    let mut remaining = need;
    let mut used: Vec<BuyCostLotUsage<N>> = Vec::new();
    let mut cost: N = N::from_u64(0);
    let ghost start = lots@;
    while remaining > 0
        invariant
            start == old(lots)@,
            remaining <= amount_sum(lots@),
            cost == usage_cost(used@),
            used@ + used_lots(lots@, remaining) == used_lots(start, need),
            left_lots(lots@, remaining) == left_lots(start, need),
        decreases lots@.len() + (if remaining > 0 { 1nat } else { 0nat }),
    {
        let ghost now = lots@;
        let ghost before = used@;
        proof {
            if now.len() == 0 {
                assert(false);
            }
            amount_sum_of_first(now);
        }
        match lots.pop_front() {
            Some(lot) => {
                assert(lots@ == now.drop_first());
                let part = if remaining <= lot.amount {
                    remaining
                } else {
                    lot.amount
                };
                let total_cost = lot.price_per_unit.times(N::from_u64(part));
                used.push(
                    BuyCostLotUsage {
                        price_per_unit: lot.price_per_unit,
                        amount: part,
                        total_cost,
                    },
                );
                assert(used@.drop_last() == before);
                cost = cost.plus(total_cost);
                let ghost was = remaining;
                remaining = remaining - part;
                assert(used@ + used_lots(now.drop_first(), remaining) == before + used_lots(
                    now,
                    was,
                ));
                if lot.amount > part {
                    let kept = BuyCostLot {
                        price_per_unit: lot.price_per_unit,
                        amount: lot.amount - part,
                        collected_at: lot.collected_at,
                    };
                    lots.push_front(kept);
                    assert(remaining == 0);
                    assert(lots@ == seq![reduced(now[0], was)] + now.drop_first());
                    assert(used_lots(lots@, 0) == used_lots(now.drop_first(), 0));
                }
            },
            None => {
                assert(false);
            },
        }
    }
    assert(used@ + used_lots(lots@, 0) == used@);
    (used, cost)
}

/// Drops the newest `excess` units and returns how many went and what they
/// had cost.
pub(crate) fn drop_newest_lots<N: Number>(lots: &mut VecDeque<BuyCostLot<N>>, excess: u64) -> (r: (u64, N))
    requires
        excess <= amount_sum(old(lots)@),
    ensures
        final(lots)@ == kept_lots(old(lots)@, excess),
        r.0 == excess,
        r.1 == usage_cost(dropped_lots(old(lots)@, excess)),
{
    let mut remaining = excess;
    let mut removed_amount: u64 = 0;
    let mut removed_value: N = N::from_u64(0);
    let ghost start = lots@;
    let ghost mut dropped = Seq::<BuyCostLotUsage<N>>::empty();
    assert(dropped + dropped_lots(start, excess) == dropped_lots(start, excess));
    while remaining > 0
        invariant
            start == old(lots)@,
            remaining <= amount_sum(lots@),
            removed_amount + remaining == excess,
            removed_value == usage_cost(dropped),
            dropped + dropped_lots(lots@, remaining) == dropped_lots(start, excess),
            kept_lots(lots@, remaining) == kept_lots(start, excess),
        decreases lots@.len() + (if remaining > 0 { 1nat } else { 0nat }),
    {
        let ghost now = lots@;
        let ghost before = dropped;
        let ghost was = remaining;
        match lots.pop_back() {
            Some(lot) => {
                assert(lots@ == now.drop_last());
                let part = if lot.amount <= remaining {
                    lot.amount
                } else {
                    remaining
                };
                removed_amount = removed_amount + part;
                removed_value = removed_value.plus(lot.price_per_unit.times(N::from_u64(part)));
                remaining = remaining - part;
                proof {
                    dropped = dropped.push(usage(lot, part));
                    assert(dropped.drop_last() == before);
                    assert(dropped + dropped_lots(now.drop_last(), remaining) == before
                        + dropped_lots(now, was));
                }
                if lot.amount > part {
                    let kept = BuyCostLot {
                        price_per_unit: lot.price_per_unit,
                        amount: lot.amount - part,
                        collected_at: lot.collected_at,
                    };
                    lots.push_back(kept);
                    assert(lots@ == now.drop_last().push(reduced(now.last(), was)));
                    assert(dropped_lots(lots@, 0) == dropped_lots(now.drop_last(), 0));
                }
            },
            None => {
                assert(false);
            },
        }
    }
    assert(dropped + dropped_lots(lots@, 0) == dropped);
    (removed_amount, removed_value)
}

} // verus!
