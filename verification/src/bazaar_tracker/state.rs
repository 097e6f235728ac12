//! The tracker and the model of what it holds.

use std::collections::VecDeque;

use vstd::prelude::*;
use vstd::string::*;

use crate::bazaar_tracker::records::{
    BuyCostLot, ItemPerformance, OrderRecord, PerformanceRecord, SellAuditRecord, SellProfitAudit,
    TrackedBazaarOrder,
};
use crate::clock::unix_timestamp;
use crate::listing::{Entries, Listing};
use crate::number::Number;

verus! {

/// A sell order that is planned for an item: the target price, and the amount
/// once the order has been sent.
#[derive(Debug, Clone)]
pub struct PlannedSell<N> {
    pub price_per_unit: N,
    pub item_tag: Option<String>,
    pub amount: Option<u64>,
    pub recorded_at: u64,
}

/// The contents of a planned sell.
pub struct PlannedRecord<N> {
    pub price_per_unit: N,
    pub item_tag: Option<Seq<char>>,
    pub amount: Option<u64>,
    pub recorded_at: u64,
}

impl<N> View for PlannedSell<N> {
    type V = PlannedRecord<N>;

    open spec fn view(&self) -> PlannedRecord<N> {
        PlannedRecord {
            price_per_unit: self.price_per_unit,
            item_tag: crate::bazaar_tracker::records::option_text(self.item_tag),
            amount: self.amount,
            recorded_at: self.recorded_at,
        }
    }
}

/// The running profit accounts.
#[derive(Debug, Clone)]
pub struct ProfitAccounts<N> {
    pub current_fifo_realized_profit_total: i64,
    pub unknown_cost_basis_sell_total_count: u64,
    pub ignored_legacy_profit_total: i64,
    pub last_sell_audit: Option<SellProfitAudit<N>>,
    pub last_sell_audit_at: Option<u64>,
}

/// The contents of the profit accounts.
pub struct AccountsRecord<N> {
    pub realized_profit_total: i64,
    pub unknown_cost_basis_sells: u64,
    pub ignored_legacy_profit_total: i64,
    pub last_sell_audit: Option<SellAuditRecord<N>>,
    pub last_sell_audit_at: Option<u64>,
}

impl<N> View for ProfitAccounts<N> {
    type V = AccountsRecord<N>;

    open spec fn view(&self) -> AccountsRecord<N> {
        AccountsRecord {
            realized_profit_total: self.current_fifo_realized_profit_total,
            unknown_cost_basis_sells: self.unknown_cost_basis_sell_total_count,
            ignored_legacy_profit_total: self.ignored_legacy_profit_total,
            last_sell_audit: crate::bazaar_tracker::records::option_audit(self.last_sell_audit),
            last_sell_audit_at: self.last_sell_audit_at,
        }
    }
}

/// Tracks active bazaar orders, the cost lots of collected buys and the profit
/// that sells realize from them.
///
/// Counters and totals wrap around at the end of their range.
#[derive(Debug)]
pub struct BazaarOrderTracker<N> {
    pub(crate) orders: Vec<TrackedBazaarOrder<N>>,
    /// Cost lots of collected buys, oldest first.
    pub(crate) buy_cost_lots: Listing<VecDeque<BuyCostLot<N>>>,
    /// Per-item profits as an outside list reports them. For diagnostics only:
    /// they are never counted as profit.
    pub(crate) bz_list_profits: Listing<(i64, u32)>,
    pub(crate) profit_audit: ProfitAccounts<N>,
    pub(crate) planned_local_sells: Listing<PlannedSell<N>>,
    /// Sell fills that were already accounted for but may still be part of the
    /// amount that the next view of the order window shows.
    pub(crate) recently_collected_sell_fills: Listing<u64>,
    pub(crate) item_performance: Listing<ItemPerformance<N>>,
    pub(crate) end_phase_state: String,
}

/// What a tracker holds. The listings are by item key.
pub struct TrackerState<N> {
    pub orders: Seq<OrderRecord<N>>,
    pub lots: Entries<Seq<BuyCostLot<N>>>,
    pub list_profits: Entries<(i64, u32)>,
    pub accounts: AccountsRecord<N>,
    pub planned: Entries<PlannedRecord<N>>,
    pub sell_fills: Entries<u64>,
    pub performance: Entries<PerformanceRecord<N>>,
    pub end_phase: Seq<char>,
}

impl<N> TrackerState<N> {
    /// No item is listed twice.
    pub open spec fn is_valid(self) -> bool {
        &&& crate::listing::distinct(self.lots)
        &&& crate::listing::distinct(self.list_profits)
        &&& crate::listing::distinct(self.planned)
        &&& crate::listing::distinct(self.sell_fills)
        &&& crate::listing::distinct(self.performance)
    }
}

impl<N> View for BazaarOrderTracker<N> {
    type V = TrackerState<N>;

    open(crate) spec fn view(&self) -> TrackerState<N> {
        TrackerState {
            orders: crate::bazaar_tracker::records::order_records(self.orders@),
            lots: self.buy_cost_lots@,
            list_profits: self.bz_list_profits@,
            accounts: self.profit_audit@,
            planned: self.planned_local_sells@,
            sell_fills: self.recently_collected_sell_fills@,
            performance: self.item_performance@,
            end_phase: self.end_phase_state@,
        }
    }
}

/// A tracker that holds nothing.
pub open spec fn empty_state<N>() -> TrackerState<N> {
    TrackerState {
        orders: Seq::empty(),
        lots: Seq::empty(),
        list_profits: Seq::empty(),
        accounts: AccountsRecord {
            realized_profit_total: 0,
            unknown_cost_basis_sells: 0,
            ignored_legacy_profit_total: 0,
            last_sell_audit: None,
            last_sell_audit_at: None,
        },
        planned: Seq::empty(),
        sell_fills: Seq::empty(),
        performance: Seq::empty(),
        end_phase: "IDLE"@,
    }
}

impl<N: Number> BazaarOrderTracker<N> {
    /// A tracker that starts with nothing.
    pub fn new_in_memory() -> (r: Self)
        ensures
            r@ == empty_state::<N>(),
            r@.is_valid(),
    {
        let r = BazaarOrderTracker {
            orders: Vec::new(),
            buy_cost_lots: Listing::new(),
            bz_list_profits: Listing::new(),
            profit_audit: ProfitAccounts {
                current_fifo_realized_profit_total: 0,
                unknown_cost_basis_sell_total_count: 0,
                ignored_legacy_profit_total: 0,
                last_sell_audit: None,
                last_sell_audit_at: None,
            },
            planned_local_sells: Listing::new(),
            recently_collected_sell_fills: Listing::new(),
            item_performance: Listing::new(),
            end_phase_state: "IDLE".to_string(),
        };
        assert(r@.orders =~= Seq::empty());
        r
    }

    /// The seconds since the Unix epoch; 0 while the clock stands before it.
    pub fn now_secs() -> (r: u64)
        ensures
            exists|elapsed: Result<std::time::Duration, std::time::SystemTimeError>|
                r == #[trigger] crate::clock::timestamp_of(elapsed),
    {
        unix_timestamp()
    }
}

} // verus!
