//! What every operation keeps of the cost lots.

use vstd::prelude::*;

use crate::bazaar_tracker::item_key::match_key;
use crate::bazaar_tracker::key_laws::{is_filed_by_key, is_item_key, is_key_of, lowercase_settles};
use crate::bazaar_tracker::lots::{kept_lots, left_lots};
use crate::bazaar_tracker::records::BuyCostLot;
use crate::bazaar_tracker::state::TrackerState;
use crate::listing::Entries;
use crate::number::Number;

verus! {

/// Every lot holds at least one unit.
pub open spec fn no_empty_lot<N>(lots: Seq<BuyCostLot<N>>) -> bool {
    forall|i: int| 0 <= i < lots.len() ==> (#[trigger] lots[i]).amount > 0
}

/// Every listed item has lots, and every lot holds at least one unit.
pub open spec fn lots_are_tidy<N>(lots: Entries<Seq<BuyCostLot<N>>>) -> bool {
    forall|i: int|
        0 <= i < lots.len() ==> (#[trigger] lots[i]).1.len() > 0 && no_empty_lot(lots[i].1)
}

proof fn left_lots_are_not_empty<N>(lots: Seq<BuyCostLot<N>>, need: u64)
    requires
        no_empty_lot(lots),
    ensures
        no_empty_lot(left_lots(lots, need)),
    decreases lots.len(),
{
    if need > 0 && lots.len() > 0 {
        let rest = lots.drop_first();
        assert forall|i: int| 0 <= i < rest.len() implies (#[trigger] rest[i]).amount > 0 by {
            assert(rest[i] == lots[i + 1]);
        }
        if lots[0].amount > need {
            let left = left_lots(lots, need);
            assert forall|i: int| 0 <= i < left.len() implies (#[trigger] left[i]).amount > 0 by {
                if i > 0 {
                    assert(left[i] == rest[i - 1]);
                }
            }
        } else {
            left_lots_are_not_empty(rest, (need - lots[0].amount) as u64);
        }
    }
}

proof fn kept_lots_are_not_empty<N>(lots: Seq<BuyCostLot<N>>, excess: u64)
    requires
        no_empty_lot(lots),
    ensures
        no_empty_lot(kept_lots(lots, excess)),
    decreases lots.len(),
{
    if excess > 0 && lots.len() > 0 {
        let rest = lots.drop_last();
        assert forall|i: int| 0 <= i < rest.len() implies (#[trigger] rest[i]).amount > 0 by {
            assert(rest[i] == lots[i]);
        }
        if lots.last().amount <= excess {
            kept_lots_are_not_empty(rest, (excess - lots.last().amount) as u64);
        }
    }
}

proof fn listing_lots_keeps_tidiness<N: Number>(
    s: TrackerState<N>,
    item_name: Seq<char>,
    lots: Seq<BuyCostLot<N>>,
)
    requires
        lots_are_tidy(s.lots),
        no_empty_lot(lots),
    ensures
        lots_are_tidy(s.with_lots(item_name, lots).lots),
{
    let key = match_key(item_name);
    let after = s.with_lots(item_name, lots).lots;
    let slot = crate::listing::slot(s.lots, key) as int;
    crate::listing::slot_is_first(s.lots, key);
    assert forall|i: int| 0 <= i < after.len() implies (#[trigger] after[i]).1.len() > 0
        && no_empty_lot(after[i].1) by {
        if lots.len() == 0 && slot < s.lots.len() && i >= slot {
            assert(after[i] == s.lots[i + 1]);
        } else if i < s.lots.len() && i != slot {
            assert(after[i] == s.lots[i]);
        } else if lots.len() == 0 {
            assert(after[i] == s.lots[i]);
        }
    }
}

proof fn lots_of_are_not_empty<N: Number>(s: TrackerState<N>, item_name: Seq<char>)
    requires
        lots_are_tidy(s.lots),
    ensures
        no_empty_lot(s.lots_of(item_name)),
{
    let slot = crate::listing::slot(s.lots, match_key(item_name)) as int;
    crate::listing::slot_is_first(s.lots, match_key(item_name));
    if slot < s.lots.len() {
        assert(no_empty_lot(s.lots[slot].1));
    }
}

/// Buying, selling and losing units keep the lots tidy: no item is listed
/// without lots, and no lot without units. Used-up lots do not linger.
pub proof fn lots_stay_tidy<N: Number>(
    s: TrackerState<N>,
    item_name: Seq<char>,
    price_per_unit: N,
    amount: u64,
    claimed: N,
    gross_list_value: Option<N>,
    now: u64,
)
    requires
        lots_are_tidy(s.lots),
    ensures
        lots_are_tidy(s.after_buy_cost(item_name, price_per_unit, amount, now).lots),
        lots_are_tidy(
            s.after_sell_collect(item_name, amount, claimed, gross_list_value, now).lots,
        ),
        lots_are_tidy(s.after_excess_missing(item_name, amount, now).lots),
        lots_are_tidy(s.with_lots(item_name, Seq::empty()).lots),
{
    let lots = s.lots_of(item_name);
    lots_of_are_not_empty(s, item_name);
    let lot = BuyCostLot { price_per_unit, amount, collected_at: now };
    if amount > 0 {
        assert forall|i: int| 0 <= i < lots.push(lot).len() implies (#[trigger] lots.push(
            lot,
        )[i]).amount > 0 by {
            if i < lots.len() {
                assert(lots[i].amount > 0);
            }
        }
        listing_lots_keeps_tidiness(s, item_name, lots.push(lot));
    }
    let known = s.known_units(item_name, amount);
    left_lots_are_not_empty(lots, known);
    listing_lots_keeps_tidiness(s, item_name, left_lots(lots, known));
    let excess = s.excess_units(item_name, amount);
    kept_lots_are_not_empty(lots, excess);
    listing_lots_keeps_tidiness(s, item_name, kept_lots(lots, excess));
    listing_lots_keeps_tidiness(s, item_name, Seq::empty());
}

proof fn listing_lots_keeps_keys<N: Number>(
    s: TrackerState<N>,
    item_name: Seq<char>,
    lots: Seq<BuyCostLot<N>>,
)
    requires
        is_filed_by_key(s.lots),
        lowercase_settles(item_name),
    ensures
        is_filed_by_key(s.with_lots(item_name, lots).lots),
{
    let key = match_key(item_name);
    let after = s.with_lots(item_name, lots).lots;
    let slot = crate::listing::slot(s.lots, key) as int;
    crate::listing::slot_is_first(s.lots, key);
    assert(is_key_of(key, item_name));
    assert(is_item_key(key));
    assert forall|i: int| 0 <= i < after.len() implies is_item_key((#[trigger] after[i]).0) by {
        if lots.len() == 0 && slot < s.lots.len() && i >= slot {
            assert(after[i] == s.lots[i + 1]);
        } else if i < s.lots.len() && (i != slot || lots.len() == 0) {
            assert(after[i] == s.lots[i]);
        }
    }
}

/// The lots stay filed by key: buying, selling and losing units file them under
/// the key of the item, however its name is displayed.
pub proof fn lots_stay_filed_by_key<N: Number>(
    s: TrackerState<N>,
    item_name: Seq<char>,
    price_per_unit: N,
    amount: u64,
    claimed: N,
    gross_list_value: Option<N>,
    now: u64,
)
    requires
        is_filed_by_key(s.lots),
        lowercase_settles(item_name),
    ensures
        is_filed_by_key(s.after_buy_cost(item_name, price_per_unit, amount, now).lots),
        is_filed_by_key(
            s.after_sell_collect(item_name, amount, claimed, gross_list_value, now).lots,
        ),
        is_filed_by_key(s.after_excess_missing(item_name, amount, now).lots),
        is_filed_by_key(s.with_lots(item_name, Seq::empty()).lots),
{
    let lots = s.lots_of(item_name);
    let lot = BuyCostLot { price_per_unit, amount, collected_at: now };
    listing_lots_keeps_keys(s, item_name, lots.push(lot));
    listing_lots_keeps_keys(s, item_name, left_lots(lots, s.known_units(item_name, amount)));
    listing_lots_keeps_keys(s, item_name, kept_lots(lots, s.excess_units(item_name, amount)));
    listing_lots_keeps_keys(s, item_name, Seq::empty());
}

} // verus!
