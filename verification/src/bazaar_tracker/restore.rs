//! What is saved of a tracker, and how a tracker starts from it.

use std::collections::VecDeque;

use vstd::prelude::*;
use vstd::string::*;

use crate::bazaar_tracker::item_key::{match_key, normalize_for_match};
use crate::bazaar_tracker::key_laws::{
    is_filed_by_key, is_item_key, is_key_of, key_is_its_own_key, lowercase_settles,
};
use crate::bazaar_tracker::records::{
    order_records, BuyCostLot, ItemPerformance, PerformanceRecord, TrackedBazaarOrder,
};
use crate::bazaar_tracker::state::{empty_state, BazaarOrderTracker, TrackerState};
use crate::listing::{distinct, lookup, with_entry, Entries, Listing};
use crate::number::Number;
use crate::text::{trim, trim_text};

verus! {

/// The contents of saved cost lots.
pub open spec fn saved_lots<N>(saved: Seq<(String, Vec<BuyCostLot<N>>)>) -> Entries<
    Seq<BuyCostLot<N>>,
> {
    saved.map_values(|e: (String, Vec<BuyCostLot<N>>)| (e.0@, e.1@))
}

/// The contents of saved performances.
pub open spec fn saved_performance<N>(saved: Seq<ItemPerformance<N>>) -> Seq<PerformanceRecord<N>> {
    saved.map_values(|p: ItemPerformance<N>| p@)
}

/// The contents of performances with their keys.
pub open spec fn performance_entries<N>(saved: Seq<(String, ItemPerformance<N>)>) -> Entries<
    PerformanceRecord<N>,
> {
    saved.map_values(|e: (String, ItemPerformance<N>)| (e.0@, e.1@))
}

/// Saved lots by item key; items with the same key share their lots.
pub open spec fn restored_lots<N>(saved: Entries<Seq<BuyCostLot<N>>>) -> Entries<Seq<BuyCostLot<N>>>
    decreases saved.len(),
{
    if saved.len() == 0 {
        Seq::empty()
    } else {
        let before = restored_lots(saved.drop_last());
        let key = match_key(saved.last().0);
        let lots = match lookup(before, key) {
            Some(lots) => lots,
            None => Seq::empty(),
        };
        with_entry(before, key, lots + saved.last().1)
    }
}

/// The key under which a saved performance is filed: that of its name, or that
/// of its product where the name is blank.
pub open spec fn performance_key<N>(p: PerformanceRecord<N>) -> Seq<char> {
    if trim(p.item_name).len() == 0 {
        match_key(p.product_id)
    } else {
        match_key(p.item_name)
    }
}

/// A saved performance; a blank product becomes the key.
pub open spec fn with_product<N>(p: PerformanceRecord<N>) -> PerformanceRecord<N> {
    if trim(p.product_id).len() == 0 {
        PerformanceRecord { product_id: performance_key(p), ..p }
    } else {
        p
    }
}

/// Saved performances by item key; of those with the same key the last counts.
pub open spec fn restored_performance<N>(saved: Seq<PerformanceRecord<N>>) -> Entries<
    PerformanceRecord<N>,
>
    decreases saved.len(),
{
    if saved.len() == 0 {
        Seq::empty()
    } else {
        with_entry(
            restored_performance(saved.drop_last()),
            performance_key(saved.last()),
            with_product(saved.last()),
        )
    }
}

impl<N: Number> BazaarOrderTracker<N> {
    /// A tracker that starts with the saved orders, cost lots and performances.
    pub fn new(
        orders: Vec<TrackedBazaarOrder<N>>,
        cost_lots: Vec<(String, Vec<BuyCostLot<N>>)>,
        performance: Vec<ItemPerformance<N>>,
    ) -> (r: Self)
        ensures
            r@ == (TrackerState {
                orders: order_records(orders@),
                lots: restored_lots(saved_lots(cost_lots@)),
                performance: restored_performance(saved_performance(performance@)),
                ..empty_state::<N>()
            }),
            r@.is_valid(),
    {
        let mut r = Self::new_in_memory();
        r.orders = orders;
        r.buy_cost_lots = Self::restore_lots(&cost_lots);
        r.item_performance = Self::restore_performance(&performance);
        r
    }

    fn restore_lots(saved: &Vec<(String, Vec<BuyCostLot<N>>)>) -> (r: Listing<
        VecDeque<BuyCostLot<N>>,
    >)
        ensures
            r@ == restored_lots(saved_lots(saved@)),
            distinct(r@),
    {
        let ghost all = saved_lots(saved@);
        let mut out: Listing<VecDeque<BuyCostLot<N>>> = Listing::new();
        let mut i: usize = 0;
        while i < saved.len()
            invariant
                i <= saved.len(),
                all == saved_lots(saved@),
                out@ == restored_lots(all.take(i as int)),
                distinct(out@),
            decreases saved.len() - i,
        {
            let key = normalize_for_match(saved[i].0.as_str());
            let mut lots: VecDeque<BuyCostLot<N>> = VecDeque::new();
            let at = out.find(key.as_str());
            if at < out.len() {
                let known = out.value_at(at);
                let mut k: usize = 0;
                while k < known.len()
                    invariant
                        k <= known.len(),
                        lots@ == known@.take(k as int),
                    decreases known.len() - k,
                {
                    lots.push_back(known[k]);
                    assert(known@.take(k + 1) == known@.take(k as int).push(known@[k as int]));
                    k = k + 1;
                }
                assert(known@.take(k as int) == known@);
            }
            let ghost before = lots@;
            let more = &saved[i].1;
            let mut j: usize = 0;
            assert(before + more@.take(0) =~= before);
            while j < more.len()
                invariant
                    j <= more.len(),
                    lots@ == before + more@.take(j as int),
                decreases more.len() - j,
            {
                lots.push_back(more[j]);
                assert(more@.take(j + 1) == more@.take(j as int).push(more@[j as int]));
                j = j + 1;
            }
            assert(more@.take(j as int) == more@);
            proof {
                assert(all.take(i + 1).drop_last() =~= all.take(i as int));
                crate::listing::lookup_after_with_entry(out@, key@, lots@, key@);
            }
            out.insert(key, lots);
            i = i + 1;
        }
        assert(all.take(i as int) =~= all);
        out
    }

    fn restore_performance(saved: &Vec<ItemPerformance<N>>) -> (r: Listing<ItemPerformance<N>>)
        ensures
            r@ == restored_performance(saved_performance(saved@)),
            distinct(r@),
    {
        let ghost all = saved_performance(saved@);
        let mut out: Listing<ItemPerformance<N>> = Listing::new();
        let mut i: usize = 0;
        while i < saved.len()
            invariant
                i <= saved.len(),
                all == saved_performance(saved@),
                out@ == restored_performance(all.take(i as int)),
                distinct(out@),
            decreases saved.len() - i,
        {
            let mut p = saved[i].copy();
            let key = if trim_text(p.item_name.as_str()).as_str().is_empty() {
                normalize_for_match(p.product_id.as_str())
            } else {
                normalize_for_match(p.item_name.as_str())
            };
            if trim_text(p.product_id.as_str()).as_str().is_empty() {
                p.product_id = key.clone();
            }
            proof {
                assert(all.take(i + 1).drop_last() =~= all.take(i as int));
                crate::listing::lookup_after_with_entry(out@, key@, p@, key@);
            }
            out.insert(key, p);
            i = i + 1;
        }
        assert(all.take(i as int) =~= all);
        out
    }

    /// The cost lots of all items, to be saved.
    pub fn cost_lots_to_save(&self) -> (r: Vec<(String, Vec<BuyCostLot<N>>)>)
        ensures
            saved_lots(r@) == self@.lots,
    {
        let mut out: Vec<(String, Vec<BuyCostLot<N>>)> = Vec::new();
        let mut i: usize = 0;
        assert(saved_lots(out@) =~= self@.lots.take(0));
        while i < self.buy_cost_lots.len()
            invariant
                i <= self@.lots.len(),
                saved_lots(out@) == self@.lots.take(i as int),
            decreases self@.lots.len() - i,
        {
            let lots = self.buy_cost_lots.value_at(i);
            let mut copied: Vec<BuyCostLot<N>> = Vec::new();
            let mut j: usize = 0;
            while j < lots.len()
                invariant
                    j <= lots.len(),
                    copied@ == lots@.take(j as int),
                decreases lots.len() - j,
            {
                copied.push(lots[j]);
                assert(lots@.take(j + 1) == lots@.take(j as int).push(lots@[j as int]));
                j = j + 1;
            }
            assert(copied@ =~= lots@);
            let ghost before = out@;
            let entry = (self.buy_cost_lots.name_at(i).clone(), copied);
            out.push(entry);
            assert(saved_lots(out@) =~= saved_lots(before).push((entry.0@, entry.1@)));
            assert(self@.lots.take(i + 1) =~= self@.lots.take(i as int).push(self@.lots[i as int]));
            i = i + 1;
        }
        assert(self@.lots.take(i as int) =~= self@.lots);
        out
    }

    /// The performances of all items, to be saved.
    pub fn performance_to_save(&self) -> (r: Vec<(String, ItemPerformance<N>)>)
        ensures
            performance_entries(r@) == self@.performance,
    {
        let ghost all = self@.performance;
        let mut out: Vec<(String, ItemPerformance<N>)> = Vec::new();
        let mut i: usize = 0;
        assert(performance_entries(out@) =~= all.take(0));
        while i < self.item_performance.len()
            invariant
                i <= all.len(),
                all == self@.performance,
                performance_entries(out@) == all.take(i as int),
            decreases all.len() - i,
        {
            let ghost before = out@;
            let entry = (
                self.item_performance.name_at(i).clone(),
                self.item_performance.value_at(i).copy(),
            );
            out.push(entry);
            assert(performance_entries(out@) =~= performance_entries(before).push(
                (entry.0@, entry.1@),
            ));
            assert(all.take(i + 1) =~= all.take(i as int).push(all[i as int]));
            i = i + 1;
        }
        assert(all.take(i as int) =~= all);
        out
    }
}

/// Saved lots come back as they were: where every item is filed under the key
/// of a name, as the tracker files them, restoring gives the lots that were
/// saved.
pub proof fn saved_lots_are_restored<N>(lots: Entries<Seq<BuyCostLot<N>>>)
    requires
        distinct(lots),
        is_filed_by_key(lots),
    ensures
        restored_lots(lots) == lots,
{
    assert forall|i: int| 0 <= i < lots.len() implies match_key(#[trigger] lots[i].0)
        == lots[i].0 by {
        assert(is_item_key(lots[i].0));
        let name = choose|name: Seq<char>| #[trigger] is_key_of(lots[i].0, name);
        key_is_its_own_key(name);
    }
    lots_under_own_keys_are_restored(lots);
}

/// Restored lots are filed by key, where lower case settles for the saved names.
pub proof fn restored_lots_are_filed_by_key<N>(saved: Entries<Seq<BuyCostLot<N>>>)
    requires
        forall|i: int| 0 <= i < saved.len() ==> lowercase_settles((#[trigger] saved[i]).0),
    ensures
        is_filed_by_key(restored_lots(saved)),
    decreases saved.len(),
{
    if saved.len() > 0 {
        let rest = saved.drop_last();
        assert forall|i: int| 0 <= i < rest.len() implies lowercase_settles(
            (#[trigger] rest[i]).0,
        ) by {
            assert(rest[i] == saved[i]);
        }
        restored_lots_are_filed_by_key(rest);
        let before = restored_lots(rest);
        let name = saved[saved.len() - 1].0;
        assert(is_key_of(match_key(name), name));
        assert(is_item_key(match_key(name)));
        crate::listing::slot_is_first(before, match_key(name));
        let after = restored_lots(saved);
        assert forall|i: int| 0 <= i < after.len() implies is_item_key((#[trigger] after[i]).0) by {
            if after[i].0 != match_key(name) {
                assert(after[i] == before[i]);
            }
        }
    }
}

proof fn lots_under_own_keys_are_restored<N>(lots: Entries<Seq<BuyCostLot<N>>>)
    requires
        distinct(lots),
        forall|i: int| 0 <= i < lots.len() ==> match_key(#[trigger] lots[i].0) == lots[i].0,
    ensures
        restored_lots(lots) == lots,
    decreases lots.len(),
{
    if lots.len() > 0 {
        let rest = lots.drop_last();
        let (name, last) = lots.last();
        assert(distinct(rest)) by {
            assert forall|a: int, b: int| 0 <= a < b < rest.len() implies #[trigger] rest[a].0
                != #[trigger] rest[b].0 by {
                assert(lots[a].0 != lots[b].0);
            }
        }
        assert forall|i: int| 0 <= i < rest.len() implies match_key(#[trigger] rest[i].0)
            == rest[i].0 by {
            assert(match_key(lots[i].0) == lots[i].0);
        }
        lots_under_own_keys_are_restored(rest);
        assert(match_key(lots[lots.len() - 1].0) == name);
        assert forall|j: int| 0 <= j < rest.len() implies #[trigger] rest[j].0 != name by {
            assert(lots[j].0 != lots[lots.len() - 1].0);
        }
        crate::listing::slot_is(rest, name, rest.len() as int);
        assert(Seq::<BuyCostLot<N>>::empty() + last =~= last);
        assert(rest.push((name, last)) =~= lots);
    }
}

/// Saved performances come back as they were: where every item is filed under
/// the key of its name and has a product, restoring gives what was saved.
pub proof fn saved_performance_is_restored<N>(performance: Entries<PerformanceRecord<N>>)
    requires
        distinct(performance),
        forall|i: int|
            0 <= i < performance.len() ==> performance_key((#[trigger] performance[i]).1)
                == performance[i].0 && trim(performance[i].1.product_id).len() > 0,
    ensures
        restored_performance(
            performance.map_values(|e: (Seq<char>, PerformanceRecord<N>)| e.1),
        ) == performance,
    decreases performance.len(),
{
    let saved = performance.map_values(|e: (Seq<char>, PerformanceRecord<N>)| e.1);
    if performance.len() > 0 {
        let rest = performance.drop_last();
        let (name, last) = performance.last();
        assert(distinct(rest)) by {
            assert forall|a: int, b: int| 0 <= a < b < rest.len() implies #[trigger] rest[a].0
                != #[trigger] rest[b].0 by {
                assert(performance[a].0 != performance[b].0);
            }
        }
        assert forall|i: int| 0 <= i < rest.len() implies performance_key((#[trigger] rest[i]).1)
            == rest[i].0 && trim(rest[i].1.product_id).len() > 0 by {
            assert(rest[i] == performance[i]);
        }
        saved_performance_is_restored(rest);
        assert(saved.drop_last() =~= rest.map_values(|e: (Seq<char>, PerformanceRecord<N>)| e.1));
        assert(performance[performance.len() - 1] == (name, last));
        assert forall|j: int| 0 <= j < rest.len() implies #[trigger] rest[j].0 != name by {
            assert(performance[j].0 != performance[performance.len() - 1].0);
        }
        crate::listing::slot_is(rest, name, rest.len() as int);
        assert(rest.push((name, last)) =~= performance);
    } else {
        assert(performance =~= Seq::empty());
    }
}

/// One saved item more adds its lots, in their order, behind those of the same
/// item that were saved before it, and leaves the lots of other items.
pub proof fn saved_lots_of_one_item_are_joined<N>(
    saved: Entries<Seq<BuyCostLot<N>>>,
    name: Seq<char>,
    lots: Seq<BuyCostLot<N>>,
    other: Seq<char>,
)
    ensures
        ({
            let before = restored_lots(saved);
            let after = restored_lots(saved.push((name, lots)));
            let known = match lookup(before, match_key(name)) {
                Some(earlier) => earlier,
                None => Seq::empty(),
            };
            &&& lookup(after, match_key(name)) == Some(known + lots)
            &&& other != match_key(name) ==> lookup(after, other) == lookup(before, other)
            &&& restored_lots(Seq::<(Seq<char>, Seq<BuyCostLot<N>>)>::empty()).len() == 0
        }),
{
    assert(saved.push((name, lots)).drop_last() =~= saved);
    let before = restored_lots(saved);
    let known = match lookup(before, match_key(name)) {
        Some(earlier) => earlier,
        None => Seq::empty(),
    };
    crate::listing::lookup_after_with_entry(before, match_key(name), known + lots, other);
}

/// A saved performance is filed under the key of its name, or of its product
/// where the name is blank; a blank product becomes that key. It replaces an
/// earlier one of the same item and leaves the others.
pub proof fn saved_performances_are_filed_by_name<N>(
    saved: Seq<PerformanceRecord<N>>,
    p: PerformanceRecord<N>,
    other: Seq<char>,
)
    ensures
        ({
            let after = restored_performance(saved.push(p));
            let key = if trim(p.item_name).len() > 0 {
                match_key(p.item_name)
            } else {
                match_key(p.product_id)
            };
            let filed = lookup(after, key);
            &&& filed is Some
            &&& trim(p.product_id).len() > 0 ==> filed->0 == p
            &&& trim(p.product_id).len() == 0 ==> filed->0 == (PerformanceRecord {
                product_id: key,
                ..p
            })
            &&& other != key ==> lookup(after, other) == lookup(restored_performance(saved), other)
        }),
{
    assert(saved.push(p).drop_last() =~= saved);
    crate::listing::lookup_after_with_entry(
        restored_performance(saved),
        performance_key(p),
        with_product(p),
        other,
    );
}

} // verus!
