//! Planned sell orders and figures from outside lists.

use vstd::prelude::*;
use vstd::string::*;

use crate::bazaar_tracker::item_key::{match_key, normalize_for_match};
use crate::bazaar_tracker::records::{copy_option_text, option_text};
use crate::bazaar_tracker::state::{
    AccountsRecord, BazaarOrderTracker, PlannedRecord, PlannedSell, TrackerState,
};
use crate::listing::{lookup, with_entry, without_entry, Entries, Listing};
use crate::number::Number;

verus! {

/// How long a sent sell order may be pending. It bridges the time until the
/// order shows up in the bazaar; after a failed command it must not hold the
/// lots of its item for long.
pub const PLANNED_LOCAL_SELL_ORDER_TTL_SECONDS: u64 = 120;

impl<N> PlannedRecord<N> {
    /// The order was sent so long before `now` that it is given up.
    pub open spec fn is_expired(self, now: u64) -> bool {
        self.amount is Some && now.saturating_sub(self.recorded_at)
            > PLANNED_LOCAL_SELL_ORDER_TTL_SECONDS
    }
}

/// The listing of `items` by item key; of items with the same key the last
/// counts.
pub open spec fn by_item_key(items: Seq<(String, (i64, u32))>) -> Entries<(i64, u32)>
    decreases items.len(),
{
    if items.len() == 0 {
        Seq::empty()
    } else {
        with_entry(by_item_key(items.drop_last()), match_key(items.last().0@), items.last().1)
    }
}

/// The price and the product of a planned sell.
pub open spec fn price_and_tag<N>(p: Option<(N, Option<String>)>) -> Option<(N, Option<Seq<char>>)> {
    match p {
        Some((price, tag)) => Some((price, option_text(tag))),
        None => None,
    }
}

/// The price, the product and the amount of a planned sell.
pub open spec fn planned_fields<N>(p: Option<(N, Option<String>, Option<u64>)>) -> Option<
    (N, Option<Seq<char>>, Option<u64>),
> {
    match p {
        Some((price, tag, amount)) => Some((price, option_text(tag), amount)),
        None => None,
    }
}

impl<N: Number> TrackerState<N> {
    pub open spec fn after_planned_sell(
        self,
        item_name: Seq<char>,
        price_per_unit: N,
        item_tag: Option<Seq<char>>,
        amount: Option<u64>,
        now: u64,
    ) -> TrackerState<N> {
        TrackerState {
            planned: with_entry(
                self.planned,
                match_key(item_name),
                PlannedRecord { price_per_unit, item_tag, amount, recorded_at: now },
            ),
            ..self
        }
    }

    /// The planned sell of an item that still counts at `now`.
    pub open spec fn planned_sell(self, item_name: Seq<char>, now: u64) -> Option<
        PlannedRecord<N>,
    > {
        match lookup(self.planned, match_key(item_name)) {
            Some(p) => if p.is_expired(now) {
                None
            } else {
                Some(p)
            },
            None => None,
        }
    }

    pub open spec fn without_planned_sell(self, item_name: Seq<char>) -> TrackerState<N> {
        TrackerState { planned: without_entry(self.planned, match_key(item_name)), ..self }
    }

    /// Looking at a planned sell gives up one that has expired.
    pub open spec fn after_planned_look(self, item_name: Seq<char>, now: u64) -> TrackerState<N> {
        match lookup(self.planned, match_key(item_name)) {
            Some(p) => if p.is_expired(now) {
                self.without_planned_sell(item_name)
            } else {
                self
            },
            None => self,
        }
    }

    /// What a look at `now` finds of a planned sell.
    pub open spec fn is_planned_look(
        self,
        after: TrackerState<N>,
        item_name: Seq<char>,
        found: Option<(N, Option<Seq<char>>, Option<u64>)>,
        now: u64,
    ) -> bool {
        &&& after == self.after_planned_look(item_name, now)
        &&& found == match self.planned_sell(item_name, now) {
            Some(p) => Some((p.price_per_unit, p.item_tag, p.amount)),
            None => None,
        }
    }

    /// What a look at `now` finds of the amount of a planned sell.
    pub open spec fn is_planned_amount_look(
        self,
        after: TrackerState<N>,
        item_name: Seq<char>,
        found: Option<u64>,
        now: u64,
    ) -> bool {
        &&& after == self.after_planned_look(item_name, now)
        &&& found == match self.planned_sell(item_name, now) {
            Some(p) => p.amount,
            None => None,
        }
    }

    pub open spec fn after_legacy_profit(self, profit: i64) -> TrackerState<N> {
        TrackerState {
            accounts: AccountsRecord {
                ignored_legacy_profit_total: self.accounts.ignored_legacy_profit_total.wrapping_add(
                    profit,
                ),
                ..self.accounts
            },
            ..self
        }
    }
}

impl<N: Number> BazaarOrderTracker<N> {
    /// Remembers, at `now`, the target price of a sell.
    pub fn record_planned_local_sell_at(
        &mut self,
        item_name: &str,
        sell_price_per_unit: N,
        item_tag: Option<String>,
        now: u64,
    )
        ensures
            final(self)@ == old(self)@.after_planned_sell(
                item_name@,
                sell_price_per_unit,
                option_text(item_tag),
                None,
                now,
            ),
            old(self)@.is_valid() ==> final(self)@.is_valid(),
    {
        let planned = PlannedSell {
            price_per_unit: sell_price_per_unit,
            item_tag,
            amount: None,
            recorded_at: now,
        };
        proof {
            crate::listing::lookup_after_with_entry(
                self@.planned,
                match_key(item_name@),
                planned@,
                item_name@,
            );
        }
        self.planned_local_sells.insert(normalize_for_match(item_name), planned);
    }

    /// Remembers the target price for the sell that follows a buy order.
    pub fn record_planned_local_sell(
        &mut self,
        item_name: &str,
        sell_price_per_unit: N,
        item_tag: Option<String>,
    )
        ensures
            exists|now: u64|
                final(self)@ == #[trigger] old(self)@.after_planned_sell(
                    item_name@,
                    sell_price_per_unit,
                    option_text(item_tag),
                    None,
                    now,
                ),
            old(self)@.is_valid() ==> final(self)@.is_valid(),
    {
        let now = Self::now_secs();
        self.record_planned_local_sell_at(item_name, sell_price_per_unit, item_tag, now);
    }

    /// Remembers a sell order that was sent at `now`.
    pub fn record_planned_local_sell_amount_at(
        &mut self,
        item_name: &str,
        sell_price_per_unit: N,
        item_tag: Option<String>,
        amount: u64,
        now: u64,
    )
        ensures
            final(self)@ == old(self)@.after_planned_sell(
                item_name@,
                sell_price_per_unit,
                option_text(item_tag),
                Some(amount),
                now,
            ),
            old(self)@.is_valid() ==> final(self)@.is_valid(),
    {
        let planned = PlannedSell {
            price_per_unit: sell_price_per_unit,
            item_tag,
            amount: Some(amount),
            recorded_at: now,
        };
        proof {
            crate::listing::lookup_after_with_entry(
                self@.planned,
                match_key(item_name@),
                planned@,
                item_name@,
            );
        }
        self.planned_local_sells.insert(normalize_for_match(item_name), planned);
    }

    /// Remembers a sell order before its confirmation arrives.
    pub fn record_planned_local_sell_amount(
        &mut self,
        item_name: &str,
        sell_price_per_unit: N,
        item_tag: Option<String>,
        amount: u64,
    )
        ensures
            exists|now: u64|
                final(self)@ == #[trigger] old(self)@.after_planned_sell(
                    item_name@,
                    sell_price_per_unit,
                    option_text(item_tag),
                    Some(amount),
                    now,
                ),
            old(self)@.is_valid() ==> final(self)@.is_valid(),
    {
        let now = Self::now_secs();
        self.record_planned_local_sell_amount_at(
            item_name,
            sell_price_per_unit,
            item_tag,
            amount,
            now,
        );
    }

    /// The amount of a planned sell that still counts at `now`.
    pub fn planned_local_sell_amount_at(&mut self, item_name: &str, now: u64) -> (r: Option<u64>)
        ensures
            old(self)@.is_planned_amount_look(final(self)@, item_name@, r, now),
            old(self)@.is_valid() ==> final(self)@.is_valid(),
    {
        match self.planned_local_sell_at(item_name, now) {
            Some((_, _, amount)) => amount,
            None => None,
        }
    }

    /// The amount of a planned sell, which stays planned.
    pub fn planned_local_sell_amount(&mut self, item_name: &str) -> (r: Option<u64>)
        ensures
            exists|now: u64|
                #[trigger] old(self)@.is_planned_amount_look(final(self)@, item_name@, r, now),
            old(self)@.is_valid() ==> final(self)@.is_valid(),
    {
        let now = Self::now_secs();
        self.planned_local_sell_amount_at(item_name, now)
    }

    /// The planned sell that still counts at `now`: price, product and amount.
    pub fn planned_local_sell_at(&mut self, item_name: &str, now: u64) -> (r: Option<
        (N, Option<String>, Option<u64>),
    >)
        ensures
            old(self)@.is_planned_look(final(self)@, item_name@, planned_fields(r), now),
            old(self)@.is_valid() ==> final(self)@.is_valid(),
    {
        let key = normalize_for_match(item_name);
        let mut found: Option<(N, Option<String>, Option<u64>)> = None;
        let mut expired = false;
        if let Some(p) = self.planned_local_sells.get(key.as_str()) {
            expired = p.amount.is_some() && now.saturating_sub(p.recorded_at)
                > PLANNED_LOCAL_SELL_ORDER_TTL_SECONDS;
            if !expired {
                found = Some((p.price_per_unit, copy_option_text(&p.item_tag), p.amount));
            }
        }
        if expired {
            proof {
                if self@.is_valid() {
                    crate::listing::lookup_after_without_entry(self@.planned, key@, key@);
                }
            }
            let _ = self.planned_local_sells.remove(key.as_str());
        }
        found
    }

    /// The planned sell of an item: price, product and amount.
    pub fn planned_local_sell(&mut self, item_name: &str) -> (r: Option<
        (N, Option<String>, Option<u64>),
    >)
        ensures
            exists|now: u64|
                #[trigger] old(self)@.is_planned_look(
                    final(self)@,
                    item_name@,
                    planned_fields(r),
                    now,
                ),
            old(self)@.is_valid() ==> final(self)@.is_valid(),
    {
        let now = Self::now_secs();
        self.planned_local_sell_at(item_name, now)
    }

    /// Takes the planned sell of an item, however old: price and product.
    pub fn take_planned_local_sell(&mut self, item_name: &str) -> (r: Option<(N, Option<String>)>)
        ensures
            price_and_tag(r) == match lookup(old(self)@.planned, match_key(item_name@)) {
                Some(p) => Some((p.price_per_unit, p.item_tag)),
                None => None,
            },
            final(self)@ == old(self)@.without_planned_sell(item_name@),
            old(self)@.is_valid() ==> final(self)@.is_valid(),
    {
        let key = normalize_for_match(item_name);
        proof {
            if self@.is_valid() {
                crate::listing::lookup_after_without_entry(self@.planned, key@, key@);
            }
        }
        match self.planned_local_sells.remove(key.as_str()) {
            Some(p) => Some((p.price_per_unit, p.item_tag)),
            None => None,
        }
    }

    /// Replaces the per-item profits of the outside list.
    pub fn set_bz_list_profits(&mut self, items: Vec<(String, (i64, u32))>)
        ensures
            final(self)@ == (TrackerState { list_profits: by_item_key(items@), ..old(self)@ }),
            old(self)@.is_valid() ==> final(self)@.is_valid(),
    {
        let mut listing: Listing<(i64, u32)> = Listing::new();
        let mut i: usize = 0;
        while i < items.len()
            invariant
                i <= items.len(),
                listing@ == by_item_key(items@.take(i as int)),
                crate::listing::distinct(listing@),
            decreases items.len() - i,
        {
            let key = normalize_for_match(items[i].0.as_str());
            proof {
                assert(items@.take(i + 1).drop_last() == items@.take(i as int));
                crate::listing::lookup_after_with_entry(
                    listing@,
                    key@,
                    items@[i as int].1,
                    key@,
                );
            }
            listing.insert(key, items[i].1);
            i = i + 1;
        }
        assert(items@.take(i as int) == items@);
        self.bz_list_profits = listing;
    }

    /// The profit of an item exactly as the outside list shows it.
    pub fn get_bz_list_profit(&self, item_name: &str) -> (r: Option<i64>)
        ensures
            r == match lookup(self@.list_profits, match_key(item_name@)) {
                Some((total, _count)) => Some(total),
                None => None,
            },
    {
        match self.bz_list_profits.get(normalize_for_match(item_name).as_str()) {
            Some(found) => Some(found.0),
            None => None,
        }
    }

    /// Notes a profit that some other source reports. It is never counted as
    /// realized.
    pub fn record_ignored_legacy_profit(&mut self, profit: i64, _source: &str)
        ensures
            final(self)@ == old(self)@.after_legacy_profit(profit),
            old(self)@.is_valid() ==> final(self)@.is_valid(),
    {
        self.profit_audit.ignored_legacy_profit_total =
        self.profit_audit.ignored_legacy_profit_total.wrapping_add(profit);
    }
}

/// Profits from other sources never change the realized profit.
pub proof fn legacy_profit_is_never_realized<N: Number>(s: TrackerState<N>, profit: i64)
    ensures
        s.after_legacy_profit(profit).accounts.realized_profit_total
            == s.accounts.realized_profit_total,
        s.after_legacy_profit(profit).accounts.last_sell_audit == s.accounts.last_sell_audit,
        s.after_legacy_profit(profit).performance == s.performance,
{
}

/// A planned sell can be looked at until its time is up and not after; one
/// without an amount has no time limit.
pub proof fn planned_sell_lasts<N: Number>(
    s: TrackerState<N>,
    item_name: Seq<char>,
    price_per_unit: N,
    item_tag: Option<Seq<char>>,
    amount: Option<u64>,
    now: u64,
    later: u64,
)
    requires
        now <= later,
    ensures
        ({
            let after = s.after_planned_sell(item_name, price_per_unit, item_tag, amount, now);
            after.planned_sell(item_name, later) == (if amount is Some && later - now
                > PLANNED_LOCAL_SELL_ORDER_TTL_SECONDS {
                None
            } else {
                Some(PlannedRecord { price_per_unit, item_tag, amount, recorded_at: now })
            })
        }),
{
    crate::listing::lookup_after_with_entry(
        s.planned,
        match_key(item_name),
        PlannedRecord { price_per_unit, item_tag, amount, recorded_at: now },
        item_name,
    );
}

/// A planned sell can be taken once.
pub proof fn planned_sell_is_taken_once<N: Number>(s: TrackerState<N>, item_name: Seq<char>)
    requires
        s.is_valid(),
    ensures
        lookup(s.without_planned_sell(item_name).planned, match_key(item_name)) is None,
{
    crate::listing::lookup_after_without_entry(s.planned, match_key(item_name), item_name);
}

} // verus!
