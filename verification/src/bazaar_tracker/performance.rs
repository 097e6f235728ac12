//! Per-item performance and cooldowns.

use vstd::prelude::*;
use vstd::string::*;

use crate::bazaar_tracker::item_key::{match_key, normalize_for_match};
use crate::bazaar_tracker::records::{
    blank_performance, ItemPerformance, OrderRecord, PerformanceRecord,
};
use crate::bazaar_tracker::state::{BazaarOrderTracker, TrackerState};
use crate::listing::{lookup, with_entry, without_entry};
use crate::number::Number;
use crate::text::{same_text, to_ascii_upper_text, trim_text};

verus! {

/// How long an item rests after its product was not found.
pub const PRODUCT_LOOKUP_FAILURE_COOLDOWN_SECONDS: u64 = 120;

/// The least time that an item is put on cooldown for.
pub const MIN_ITEM_COOLDOWN_SECONDS: u64 = 60;

pub open spec fn larger_of(a: u64, b: u64) -> u64 {
    if a >= b {
        a
    } else {
        b
    }
}

/// The reason that a cooldown is reported with: the text without surrounding
/// whitespace, in upper case.
pub open spec fn cooldown_label(reason: Seq<char>) -> Seq<char> {
    crate::text::trim(reason).map_values(|c: char| crate::text::ascii_upper(c))
}

/// The reason that a failed product lookup is reported with.
pub open spec fn lookup_failure_label(reason: Seq<char>) -> Seq<char> {
    if crate::text::trim(reason).len() == 0 {
        "PRODUCT_LOOKUP_FAILED"@
    } else {
        crate::text::trim(reason)
    }
}

impl<N: Number> PerformanceRecord<N> {
    pub open spec fn cooldown_label(self) -> Seq<char> {
        match self.block_reason {
            Some(reason) => reason,
            None => "ITEM_COOLDOWN"@,
        }
    }

    /// The cooldown that holds at `now`, with its end and its reason. A failed
    /// product lookup blocks an item for a short time only.
    pub open spec fn cooldown(self, now: u64) -> Option<(u64, Seq<char>)> {
        match self.cooldown_until {
            None => None,
            Some(until) => {
                let reason = self.cooldown_label();
                let end = if reason == "PRODUCT_LOOKUP_FAILED"@
                    && self.last_failure_timestamp is Some {
                    crate::bazaar_tracker::lots::smaller_of(
                        self.last_failure_timestamp->0.wrapping_add(
                            PRODUCT_LOOKUP_FAILURE_COOLDOWN_SECONDS,
                        ),
                        until,
                    )
                } else {
                    until
                };
                if end <= now {
                    None
                } else {
                    Some((end, reason))
                }
            },
        }
    }

    /// A manual cooldown of `seconds` from `now`; it never ends earlier than
    /// the one before.
    pub open spec fn cooled_down(self, reason: Seq<char>, seconds: u64, now: u64) -> Self {
        let until = now.saturating_add(larger_of(seconds, MIN_ITEM_COOLDOWN_SECONDS));
        let before = match self.cooldown_until {
            Some(t) => t,
            None => 0,
        };
        PerformanceRecord {
            cooldown_until: Some(larger_of(before, until)),
            block_reason: Some(cooldown_label(reason)),
            last_failure_timestamp: Some(now),
            ..self
        }
    }

    /// The product was not found at `now`.
    pub open spec fn lookup_failed(self, reason: Seq<char>, now: u64) -> Self {
        PerformanceRecord {
            failed_search_count: self.failed_search_count.wrapping_add(1),
            failed_flips: self.failed_flips.wrapping_add(1),
            last_failure_timestamp: Some(now),
            cooldown_until: Some(now.wrapping_add(PRODUCT_LOOKUP_FAILURE_COOLDOWN_SECONDS)),
            block_reason: Some(lookup_failure_label(reason)),
            ..self
        }
    }
}

impl<N: Number> TrackerState<N> {
    /// The performance of an item as the next event finds it: a new item
    /// starts blank, and a nameless record takes the name.
    pub open spec fn performance_of(self, item_name: Seq<char>) -> PerformanceRecord<N> {
        let found = match lookup(self.performance, match_key(item_name)) {
            Some(p) => p,
            None => PerformanceRecord {
                item_name,
                product_id: match_key(item_name),
                ..blank_performance::<N>()
            },
        };
        if found.item_name.len() == 0 {
            PerformanceRecord { item_name, ..found }
        } else {
            found
        }
    }

    /// The state with `p` as the performance of an item.
    pub open spec fn with_performance(
        self,
        item_name: Seq<char>,
        p: PerformanceRecord<N>,
    ) -> TrackerState<N> {
        TrackerState {
            performance: with_entry(self.performance, match_key(item_name), p),
            ..self
        }
    }

    /// The cooldown of an item that holds at `now`.
    pub open spec fn cooldown(self, item_name: Seq<char>, now: u64) -> Option<(u64, Seq<char>)> {
        match lookup(self.performance, match_key(item_name)) {
            Some(p) => p.cooldown(now),
            None => None,
        }
    }

    /// An active buy order whose item is on cooldown at `now`.
    pub open spec fn is_buy_on_cooldown(self, order: OrderRecord<N>, now: u64) -> bool {
        order.is_buy_order && order.is_active() && self.cooldown(order.item_name, now) is Some
    }

    /// The first active buy order whose item is on cooldown at `now`.
    pub open spec fn first_buy_on_cooldown(
        self,
        found: Option<(Seq<char>, Seq<char>, u64)>,
        now: u64,
    ) -> bool {
        match found {
            Some((name, reason, until)) => exists|i: int|
                {
                    &&& 0 <= i < self.orders.len()
                    &&& #[trigger] self.is_buy_on_cooldown(self.orders[i], now)
                    &&& name == self.orders[i].item_name
                    &&& self.cooldown(name, now) == Some((until, reason))
                    &&& forall|j: int|
                        0 <= j < i ==> !#[trigger] self.is_buy_on_cooldown(self.orders[j], now)
                },
            None => forall|j: int|
                0 <= j < self.orders.len() ==> !#[trigger] self.is_buy_on_cooldown(
                    self.orders[j],
                    now,
                ),
        }
    }

    pub open spec fn after_cooldown_item(
        self,
        item_name: Seq<char>,
        reason: Seq<char>,
        seconds: u64,
        now: u64,
    ) -> TrackerState<N> {
        self.with_performance(
            item_name,
            self.performance_of(item_name).cooled_down(reason, seconds, now),
        )
    }

    /// A failed product lookup also ends the planned sell of the item.
    pub open spec fn after_lookup_failed(
        self,
        item_name: Seq<char>,
        reason: Seq<char>,
        now: u64,
    ) -> TrackerState<N> {
        TrackerState {
            planned: without_entry(self.planned, match_key(item_name)),
            ..self.with_performance(
                item_name,
                self.performance_of(item_name).lookup_failed(reason, now),
            )
        }
    }

    pub open spec fn after_reprice(self, item_name: Seq<char>) -> TrackerState<N> {
        let p = self.performance_of(item_name);
        self.with_performance(
            item_name,
            PerformanceRecord { reprice_count: p.reprice_count.wrapping_add(1), ..p },
        )
    }
}

/// Storing a performance lists no item twice.
pub proof fn with_performance_is_valid<N: Number>(
    s: TrackerState<N>,
    item_name: Seq<char>,
    p: PerformanceRecord<N>,
)
    requires
        s.is_valid(),
    ensures
        s.with_performance(item_name, p).is_valid(),
{
    crate::listing::lookup_after_with_entry(s.performance, match_key(item_name), p, item_name);
}

/// The text of an optional cooldown.
pub open spec fn cooldown_text(c: Option<(u64, String)>) -> Option<(u64, Seq<char>)> {
    match c {
        Some((until, reason)) => Some((until, reason@)),
        None => None,
    }
}

/// The text of an optional order on cooldown.
pub open spec fn blocked_order_text(c: Option<(String, String, u64)>) -> Option<
    (Seq<char>, Seq<char>, u64),
> {
    match c {
        Some((name, reason, until)) => Some((name@, reason@, until)),
        None => None,
    }
}

impl<N: Number> BazaarOrderTracker<N> {
    /// The performance of an item as the next event finds it.
    pub(crate) fn performance_record(&self, item_name: &str) -> (p: ItemPerformance<N>)
        ensures
            p@ == self@.performance_of(item_name@),
    {
        let key = normalize_for_match(item_name);
        let mut p = match self.item_performance.get(key.as_str()) {
            Some(found) => found.copy(),
            None => {
                let mut fresh: ItemPerformance<N> = ItemPerformance::default();
                fresh.item_name = item_name.to_string();
                fresh.product_id = key;
                fresh
            },
        };
        if p.item_name.as_str().is_empty() {
            p.item_name = item_name.to_string();
        }
        p
    }

    pub(crate) fn store_performance(&mut self, item_name: &str, p: ItemPerformance<N>)
        ensures
            final(self)@ == old(self)@.with_performance(item_name@, p@),
    {
        self.item_performance.insert(normalize_for_match(item_name), p);
    }

    pub fn set_end_phase_state(&mut self, state: String)
        ensures
            final(self)@ == (TrackerState { end_phase: state@, ..old(self)@ }),
    {
        self.end_phase_state = state;
    }

    pub fn end_phase_state(&self) -> (r: String)
        ensures
            r@ == self@.end_phase,
    {
        self.end_phase_state.clone()
    }

    /// The cooldown of an item that holds at `now`: its end and its reason.
    pub fn item_cooldown_reason_at(&self, item_name: &str, now: u64) -> (r: Option<(u64, String)>)
        ensures
            cooldown_text(r) == self@.cooldown(item_name@, now),
    {
        let key = normalize_for_match(item_name);
        let perf = match self.item_performance.get(key.as_str()) {
            Some(p) => p,
            None => {
                return None;
            },
        };
        let until = match perf.cooldown_until {
            Some(t) => t,
            None => {
                return None;
            },
        };
        let reason = match &perf.block_reason {
            Some(text) => text.clone(),
            None => "ITEM_COOLDOWN".to_string(),
        };
        let mut end = until;
        if same_text(reason.as_str(), "PRODUCT_LOOKUP_FAILED") {
            if let Some(ts) = perf.last_failure_timestamp {
                let short = ts.wrapping_add(PRODUCT_LOOKUP_FAILURE_COOLDOWN_SECONDS);
                if short <= until {
                    end = short;
                }
            }
        }
        if end <= now {
            return None;
        }
        Some((end, reason))
    }

    /// The cooldown of an item that holds now.
    pub fn item_cooldown_reason(&self, item_name: &str) -> (r: Option<(u64, String)>)
        ensures
            exists|now: u64| cooldown_text(r) == #[trigger] self@.cooldown(item_name@, now),
    {
        let now = Self::now_secs();
        self.item_cooldown_reason_at(item_name, now)
    }

    /// The first active buy order whose item is on cooldown at `now`: item,
    /// reason and end.
    pub fn active_buy_order_on_cooldown_at(&self, now: u64) -> (r: Option<(String, String, u64)>)
        ensures
            self@.first_buy_on_cooldown(blocked_order_text(r), now),
    {
        let mut i: usize = 0;
        while i < self.orders.len()
            invariant
                i <= self.orders.len(),
                forall|j: int|
                    0 <= j < i ==> !#[trigger] self@.is_buy_on_cooldown(self@.orders[j], now),
            decreases self.orders.len() - i,
        {
            assert(self@.orders[i as int] == self.orders@[i as int]@);
            if self.orders[i].is_buy_order && self.orders[i].is_active() {
                if let Some((until, reason)) = self.item_cooldown_reason_at(
                    self.orders[i].item_name.as_str(),
                    now,
                ) {
                    assert(self@.is_buy_on_cooldown(self@.orders[i as int], now));
                    return Some((self.orders[i].item_name.clone(), reason, until));
                }
            }
            i = i + 1;
        }
        None
    }

    /// The first active buy order whose item is on cooldown now.
    pub fn active_buy_order_on_cooldown(&self) -> (r: Option<(String, String, u64)>)
        ensures
            exists|now: u64| #[trigger] self@.first_buy_on_cooldown(blocked_order_text(r), now),
    {
        let now = Self::now_secs();
        self.active_buy_order_on_cooldown_at(now)
    }

    /// Puts an item on cooldown from `now`.
    pub fn cooldown_item_at(
        &mut self,
        item_name: &str,
        reason: &str,
        cooldown_seconds: u64,
        now: u64,
    )
        ensures
            final(self)@ == old(self)@.after_cooldown_item(
                item_name@,
                reason@,
                cooldown_seconds,
                now,
            ),
            old(self)@.is_valid() ==> final(self)@.is_valid(),
    {
        let seconds = if cooldown_seconds >= MIN_ITEM_COOLDOWN_SECONDS {
            cooldown_seconds
        } else {
            MIN_ITEM_COOLDOWN_SECONDS
        };
        let label = to_ascii_upper_text(trim_text(reason).as_str());
        let mut p = self.performance_record(item_name);
        let until = now.saturating_add(seconds);
        let before = match p.cooldown_until {
            Some(t) => t,
            None => 0,
        };
        p.cooldown_until = Some(
            if before >= until {
                before
            } else {
                until
            },
        );
        p.block_reason = Some(label);
        p.last_failure_timestamp = Some(now);
        self.store_performance(item_name, p);
        proof {
            if old(self)@.is_valid() {
                with_performance_is_valid(old(self)@, item_name@, p@);
            }
        }
    }

    /// Puts an item on cooldown from now.
    pub fn cooldown_item(&mut self, item_name: &str, reason: &str, cooldown_seconds: u64)
        ensures
            exists|now: u64|
                final(self)@ == #[trigger] old(self)@.after_cooldown_item(
                    item_name@,
                    reason@,
                    cooldown_seconds,
                    now,
                ),
            old(self)@.is_valid() ==> final(self)@.is_valid(),
    {
        let now = Self::now_secs();
        self.cooldown_item_at(item_name, reason, cooldown_seconds, now);
    }

    /// Records that the product of an item was not found at `now`.
    pub fn record_product_lookup_failed_at(&mut self, item_name: &str, reason: &str, now: u64)
        ensures
            final(self)@ == old(self)@.after_lookup_failed(item_name@, reason@, now),
            old(self)@.is_valid() ==> final(self)@.is_valid(),
    {
        let key = normalize_for_match(item_name);
        let _ = self.planned_local_sells.remove(key.as_str());
        let trimmed = trim_text(reason);
        let label = if trimmed.as_str().is_empty() {
            "PRODUCT_LOOKUP_FAILED".to_string()
        } else {
            trimmed
        };
        let mut p = self.performance_record(item_name);
        p.failed_search_count = p.failed_search_count.wrapping_add(1);
        p.failed_flips = p.failed_flips.wrapping_add(1);
        p.last_failure_timestamp = Some(now);
        p.cooldown_until = Some(now.wrapping_add(PRODUCT_LOOKUP_FAILURE_COOLDOWN_SECONDS));
        p.block_reason = Some(label);
        self.store_performance(item_name, p);
        proof {
            if old(self)@.is_valid() {
                with_performance_is_valid(old(self)@, item_name@, p@);
                crate::listing::lookup_after_without_entry(
                    old(self)@.planned,
                    match_key(item_name@),
                    item_name@,
                );
            }
        }
    }

    /// Records that the product of an item was not found now.
    pub fn record_product_lookup_failed(&mut self, item_name: &str, reason: &str)
        ensures
            exists|now: u64|
                final(self)@ == #[trigger] old(self)@.after_lookup_failed(item_name@, reason@, now),
            old(self)@.is_valid() ==> final(self)@.is_valid(),
    {
        let now = Self::now_secs();
        self.record_product_lookup_failed_at(item_name, reason, now);
    }

    pub fn record_reprice(&mut self, item_name: &str)
        ensures
            final(self)@ == old(self)@.after_reprice(item_name@),
            old(self)@.is_valid() ==> final(self)@.is_valid(),
    {
        let mut p = self.performance_record(item_name);
        p.reprice_count = p.reprice_count.wrapping_add(1);
        self.store_performance(item_name, p);
        proof {
            if old(self)@.is_valid() {
                with_performance_is_valid(old(self)@, item_name@, p@);
            }
        }
    }
}

/// A cooldown holds for its whole time, at least a minute, with its reason; it
/// never cuts an earlier cooldown short, and it concerns no other item. The one
/// reason that is lifted early is that of a failed lookup.
pub proof fn cooldown_holds<N: Number>(
    s: TrackerState<N>,
    item_name: Seq<char>,
    reason: Seq<char>,
    seconds: u64,
    now: u64,
    later: u64,
    other: Seq<char>,
)
    requires
        now + larger_of(seconds, MIN_ITEM_COOLDOWN_SECONDS) <= u64::MAX,
        later < now + larger_of(seconds, MIN_ITEM_COOLDOWN_SECONDS),
        cooldown_label(reason) != "PRODUCT_LOOKUP_FAILED"@,
    ensures
        ({
            let after = s.after_cooldown_item(item_name, reason, seconds, now);
            let before = s.performance_of(item_name).cooldown_until;
            &&& match after.cooldown(item_name, later) {
                Some((end, label)) => {
                    &&& end >= now + larger_of(seconds, MIN_ITEM_COOLDOWN_SECONDS)
                    &&& before is Some ==> end >= before->0
                    &&& label == cooldown_label(reason)
                },
                None => false,
            }
            &&& match_key(other) != match_key(item_name) ==> after.cooldown(other, later)
                == s.cooldown(other, later)
        }),
{
    crate::listing::lookup_after_with_entry(
        s.performance,
        match_key(item_name),
        s.performance_of(item_name).cooled_down(reason, seconds, now),
        match_key(other),
    );
}

/// A failed product lookup blocks its item for two minutes and not longer, and
/// ends its planned sell.
pub proof fn lookup_failure_passes<N: Number>(
    s: TrackerState<N>,
    item_name: Seq<char>,
    reason: Seq<char>,
    now: u64,
    later: u64,
)
    requires
        s.is_valid(),
        now + PRODUCT_LOOKUP_FAILURE_COOLDOWN_SECONDS <= u64::MAX,
        now <= later,
    ensures
        ({
            let after = s.after_lookup_failed(item_name, reason, now);
            &&& after.cooldown(item_name, later) == (if later - now
                < PRODUCT_LOOKUP_FAILURE_COOLDOWN_SECONDS {
                Some(
                    (
                        (now + PRODUCT_LOOKUP_FAILURE_COOLDOWN_SECONDS) as u64,
                        lookup_failure_label(reason),
                    ),
                )
            } else {
                None
            })
            &&& lookup(after.planned, match_key(item_name)) is None
        }),
{
    crate::listing::lookup_after_with_entry(
        s.performance,
        match_key(item_name),
        s.performance_of(item_name).lookup_failed(reason, now),
        item_name,
    );
    crate::listing::lookup_after_without_entry(s.planned, match_key(item_name), item_name);
}

} // verus!
