//! Cost lots, the check before a sell order and the accounting of collected
//! sells.

use std::collections::VecDeque;

use vstd::prelude::*;
use vstd::string::*;

use crate::bazaar_tracker::item_key::{match_key, normalize_for_match};
use crate::bazaar_tracker::lots::{
    amount_sum, consume_lots, count_units, drop_newest_lots, dropped_lots, fifo_conserves_units,
    kept_lots, left_lots, lots_value, quote_lots, smaller_of, total_amount,
    total_amount_is_bounded, usage_cost, used_lots, value_lots,
};
use crate::bazaar_tracker::orders::{active_for, orders_value};
use crate::bazaar_tracker::performance::{larger_of, with_performance_is_valid};
use crate::bazaar_tracker::records::{
    BuyCostLot, CostBasisStatus, PerformanceRecord, SellAuditRecord, SellBlockReason,
    SellProfitAudit, SellProfitCheck,
};
use crate::bazaar_tracker::state::{AccountsRecord, BazaarOrderTracker, TrackerState};
use crate::listing::{lookup, with_entry, without_entry};
use crate::number::Number;
use crate::text::{decimal, decimal_text};

verus! {

/// How long an item rests after a sell at a loss was refused.
pub const NEGATIVE_PROFIT_COOLDOWN_SECONDS: u64 = 900;

/// How long an item rests after its units were missing from the inventory.
pub const MISSING_INVENTORY_COOLDOWN_SECONDS: u64 = 1800;

/// What a sell of `amount` units brings in after the tax of `tax_rate` percent.
pub open spec fn sell_after_tax<N: Number>(price_per_unit: N, amount: u64, tax_rate: N) -> N {
    price_per_unit.spec_times(N::whole(amount)).spec_times(
        N::whole(1).spec_minus(tax_rate.spec_larger(N::whole(0)).spec_over(N::whole(100))),
    )
}

/// A collected sell whose proceeds are known.
pub open spec fn is_known_claim<N: Number>(claimed: N, gross_list_value: Option<N>) -> bool {
    !claimed.spec_at_most(N::whole(0)) && claimed.spec_is_finite() && gross_list_value is Some
}

pub open spec fn insufficient_lots_reason(needed: u64, available: u64) -> Seq<char> {
    "insufficient_fifo_lots: needed "@ + decimal(needed) + ", available "@ + decimal(available)
}

pub open spec fn partial_basis_reason(sold: u64, known: u64, unknown: u64) -> Seq<char> {
    "partial_known_cost_basis: sold "@ + decimal(sold) + ", known "@ + decimal(known)
        + ", unknown "@ + decimal(unknown)
}

impl<N: Number> PerformanceRecord<N> {
    /// A sell was refused since its cost is unknown.
    pub open spec fn cost_unknown(self, now: u64) -> Self {
        PerformanceRecord {
            unknown_cost_basis_count: self.unknown_cost_basis_count.wrapping_add(1),
            last_failure_timestamp: Some(now),
            block_reason: Some(SellBlockReason::UnknownCostBasis.name()),
            ..self
        }
    }

    /// A sell was refused since it would lose coins.
    pub open spec fn loss_refused(self, now: u64) -> Self {
        PerformanceRecord {
            negative_profit_block_count: self.negative_profit_block_count.wrapping_add(1),
            failed_flips: self.failed_flips.wrapping_add(1),
            last_failure_timestamp: Some(now),
            cooldown_until: Some(now.wrapping_add(NEGATIVE_PROFIT_COOLDOWN_SECONDS)),
            block_reason: Some(SellBlockReason::NegativeExpectedProfit.name()),
            ..self
        }
    }

    /// A sell was collected whose profit cannot be told.
    pub open spec fn sold_at_unknown_cost(self, reason: Option<Seq<char>>, now: u64) -> Self {
        PerformanceRecord {
            unknown_cost_basis_count: self.unknown_cost_basis_count.wrapping_add(1),
            failed_flips: self.failed_flips.wrapping_add(1),
            last_failure_timestamp: Some(now),
            block_reason: reason,
            ..self
        }
    }

    /// A sell was collected that realized `profit`. `partial` tells that the
    /// cost of some units is unknown, `finished` that nothing of the item is
    /// held or ordered any more; a gain then ends the cooldown.
    pub open spec fn sold(self, profit: i64, partial: bool, finished: bool, now: u64) -> Self {
        let failures = if partial {
            self.failed_flips.wrapping_add(1)
        } else {
            self.failed_flips
        };
        let total = self.realized_profit_total.wrapping_add(profit);
        let flips = if profit > 0 {
            self.successful_flips.wrapping_add(1)
        } else {
            self.successful_flips
        };
        PerformanceRecord {
            sell_orders_filled: self.sell_orders_filled.wrapping_add(1),
            realized_profit_total: total,
            unknown_cost_basis_count: if partial {
                self.unknown_cost_basis_count.wrapping_add(1)
            } else {
                self.unknown_cost_basis_count
            },
            failed_flips: if profit > 0 {
                failures
            } else {
                failures.wrapping_add(1)
            },
            successful_flips: flips,
            last_failure_timestamp: if partial || profit <= 0 {
                Some(now)
            } else {
                self.last_failure_timestamp
            },
            last_success_timestamp: if profit > 0 {
                Some(now)
            } else {
                self.last_success_timestamp
            },
            cooldown_until: if profit > 0 && finished {
                None
            } else {
                self.cooldown_until
            },
            block_reason: if profit > 0 && finished {
                None
            } else {
                self.block_reason
            },
            avg_realized_profit_per_flip: N::signed(total).spec_over(
                N::whole(larger_of(flips, 1)),
            ),
            ..self
        }
    }

    /// `units` units of the item were missing from the inventory.
    pub open spec fn units_missing(self, units: u64, now: u64) -> Self {
        PerformanceRecord {
            failed_flips: self.failed_flips.wrapping_add(larger_of(units, 1)),
            last_failure_timestamp: Some(now),
            cooldown_until: Some(now.wrapping_add(MISSING_INVENTORY_COOLDOWN_SECONDS)),
            block_reason: Some("COST_LOT_NOT_IN_INVENTORY"@),
            ..self
        }
    }
}

impl<N: Number> TrackerState<N> {
    /// The cost lots of an item, oldest first.
    pub open spec fn lots_of(self, item_name: Seq<char>) -> Seq<BuyCostLot<N>> {
        match lookup(self.lots, match_key(item_name)) {
            Some(lots) => lots,
            None => Seq::empty(),
        }
    }

    /// What the oldest `amount` units of an item cost, where the lots hold as
    /// many.
    pub open spec fn cost_basis(self, item_name: Seq<char>, amount: u64) -> Option<N> {
        if 0 < amount <= amount_sum(self.lots_of(item_name)) {
            Some(usage_cost(used_lots(self.lots_of(item_name), amount)))
        } else {
            None
        }
    }

    /// Why a sell order is not placed; `None` where it may be.
    pub open spec fn sell_block(
        self,
        item_name: Seq<char>,
        amount: u64,
        price_per_unit: N,
        tax_rate: N,
    ) -> Option<SellBlockReason> {
        if amount == 0 || price_per_unit.spec_at_most(N::whole(0)) {
            Some(SellBlockReason::InvalidSell)
        } else {
            match self.cost_basis(item_name, amount) {
                None => Some(SellBlockReason::UnknownCostBasis),
                Some(cost) => if sell_after_tax(price_per_unit, amount, tax_rate).spec_at_most(
                    cost,
                ) {
                    Some(SellBlockReason::NegativeExpectedProfit)
                } else {
                    None
                },
            }
        }
    }

    /// The answer to whether a sell order may be placed: only one that is
    /// expected to earn more than the lots it is served from have cost.
    pub open spec fn sell_check(
        self,
        item_name: Seq<char>,
        amount: u64,
        price_per_unit: N,
        tax_rate: N,
    ) -> SellProfitCheck<N> {
        let block = self.sell_block(item_name, amount, price_per_unit, tax_rate);
        SellProfitCheck {
            allowed: block is None,
            reason: block,
            expected_sell_after_tax: sell_after_tax(price_per_unit, amount, tax_rate),
            fifo_cost_basis_total: if block is None
                || block == Some(SellBlockReason::NegativeExpectedProfit) {
                self.cost_basis(item_name, amount)->0
            } else {
                N::whole(0)
            },
            amount,
        }
    }

    pub open spec fn after_sell_check(
        self,
        item_name: Seq<char>,
        amount: u64,
        price_per_unit: N,
        tax_rate: N,
        now: u64,
    ) -> TrackerState<N> {
        match self.sell_block(item_name, amount, price_per_unit, tax_rate) {
            Some(SellBlockReason::UnknownCostBasis) => self.with_performance(
                item_name,
                self.performance_of(item_name).cost_unknown(now),
            ),
            Some(SellBlockReason::NegativeExpectedProfit) => self.with_performance(
                item_name,
                self.performance_of(item_name).loss_refused(now),
            ),
            _ => self,
        }
    }

    pub open spec fn after_buy_cost(
        self,
        item_name: Seq<char>,
        price_per_unit: N,
        amount: u64,
        now: u64,
    ) -> TrackerState<N> {
        if amount == 0 || price_per_unit.spec_at_most(N::whole(0)) {
            self
        } else {
            TrackerState {
                lots: with_entry(
                    self.lots,
                    match_key(item_name),
                    self.lots_of(item_name).push(
                        BuyCostLot { price_per_unit, amount, collected_at: now },
                    ),
                ),
                ..self
            }
        }
    }

    /// The state in which `lots` are left of an item; an item without lots is
    /// not listed.
    pub open spec fn with_lots(
        self,
        item_name: Seq<char>,
        lots: Seq<BuyCostLot<N>>,
    ) -> TrackerState<N> {
        TrackerState {
            lots: if lots.len() == 0 {
                without_entry(self.lots, match_key(item_name))
            } else {
                with_entry(self.lots, match_key(item_name), lots)
            },
            ..self
        }
    }

    /// How many sold units have a known cost.
    pub open spec fn known_units(self, item_name: Seq<char>, sold_amount: u64) -> u64 {
        smaller_of(sold_amount, total_amount(self.lots_of(item_name)))
    }

    /// A collected sell of which at least some units can be accounted.
    pub open spec fn is_accountable(
        self,
        item_name: Seq<char>,
        sold_amount: u64,
        claimed: N,
        gross_list_value: Option<N>,
    ) -> bool {
        self.known_units(item_name, sold_amount) > 0 && is_known_claim(claimed, gross_list_value)
    }

    /// The audit of a collected sell. Only the units that the lots back are
    /// realized; the rest is reported and never counted as profit.
    pub open spec fn sell_audit(
        self,
        item_name: Seq<char>,
        sold_amount: u64,
        claimed: N,
        gross_list_value: Option<N>,
    ) -> SellAuditRecord<N> {
        let known = self.known_units(item_name, sold_amount);
        let used = used_lots(self.lots_of(item_name), known);
        let ratio = N::whole(known).spec_over(N::whole(sold_amount));
        if self.is_accountable(item_name, sold_amount, claimed, gross_list_value) {
            SellAuditRecord {
                item_name,
                sold_amount: known,
                claimed_coins_after_tax: claimed.spec_times(ratio),
                gross_list_value: Some(gross_list_value->0.spec_times(ratio)),
                lots_used: used,
                cost_basis_total: usage_cost(used),
                cost_basis_status: if known < sold_amount {
                    CostBasisStatus::PartialKnownCostBasis
                } else {
                    CostBasisStatus::Known
                },
                realized_profit: claimed.spec_times(ratio).spec_minus(
                    usage_cost(used),
                ).spec_rounded(),
                reason: if known < sold_amount {
                    Some(partial_basis_reason(sold_amount, known, (sold_amount - known) as u64))
                } else {
                    None
                },
            }
        } else {
            SellAuditRecord {
                item_name,
                sold_amount,
                claimed_coins_after_tax: claimed,
                gross_list_value,
                lots_used: Seq::empty(),
                cost_basis_total: N::whole(0),
                cost_basis_status: CostBasisStatus::UnknownCostBasis,
                realized_profit: 0,
                reason: Some(
                    if sold_amount == 0 {
                        "sold_amount_zero"@
                    } else if !is_known_claim(claimed, gross_list_value) {
                        "missing_known_sell_claim_value"@
                    } else {
                        insufficient_lots_reason(sold_amount, 0)
                    },
                ),
            }
        }
    }

    /// Nothing of an item is held or ordered once `lots` are what is left.
    pub open spec fn is_finished(self, item_name: Seq<char>, lots: Seq<BuyCostLot<N>>) -> bool {
        let key = match_key(item_name);
        &&& lots_value(lots).spec_at_most(N::whole(1))
        &&& orders_value(self.orders.filter(active_for(key, false))).spec_at_most(N::whole(1))
        &&& orders_value(self.orders.filter(active_for(key, true))).spec_at_most(N::whole(1))
    }

    /// A collected sell ends the planned sell, uses up the oldest lots and
    /// books the profit.
    pub open spec fn after_sell_collect(
        self,
        item_name: Seq<char>,
        sold_amount: u64,
        claimed: N,
        gross_list_value: Option<N>,
        now: u64,
    ) -> TrackerState<N> {
        let audit = self.sell_audit(item_name, sold_amount, claimed, gross_list_value);
        let known = self.known_units(item_name, sold_amount);
        let left = left_lots(self.lots_of(item_name), known);
        let ended = TrackerState {
            planned: without_entry(self.planned, match_key(item_name)),
            accounts: AccountsRecord {
                realized_profit_total: self.accounts.realized_profit_total.wrapping_add(
                    audit.realized_profit,
                ),
                unknown_cost_basis_sells: if audit.cost_basis_status == CostBasisStatus::Known {
                    self.accounts.unknown_cost_basis_sells
                } else {
                    self.accounts.unknown_cost_basis_sells.wrapping_add(1)
                },
                last_sell_audit: Some(audit),
                last_sell_audit_at: Some(now),
                ..self.accounts
            },
            ..self
        };
        let p = self.performance_of(item_name);
        if self.is_accountable(item_name, sold_amount, claimed, gross_list_value) {
            ended.with_lots(item_name, left).with_performance(
                item_name,
                p.sold(
                    audit.realized_profit,
                    known < sold_amount,
                    self.is_finished(item_name, left),
                    now,
                ),
            )
        } else {
            ended.with_performance(item_name, p.sold_at_unknown_cost(audit.reason, now))
        }
    }

    /// How many units more the lots hold than are kept.
    pub open spec fn excess_units(self, item_name: Seq<char>, keep_amount: u64) -> u64 {
        total_amount(self.lots_of(item_name)).saturating_sub(keep_amount)
    }

    /// The excess goes from the newest lots; with the last lot the planned sell
    /// ends too.
    pub open spec fn after_excess_missing(
        self,
        item_name: Seq<char>,
        keep_amount: u64,
        now: u64,
    ) -> TrackerState<N> {
        let excess = self.excess_units(item_name, keep_amount);
        let kept = kept_lots(self.lots_of(item_name), excess);
        if excess == 0 {
            self
        } else {
            TrackerState {
                planned: if kept.len() == 0 {
                    without_entry(self.planned, match_key(item_name))
                } else {
                    self.planned
                },
                ..self
            }.with_lots(item_name, kept).with_performance(
                item_name,
                self.performance_of(item_name).units_missing(excess, now),
            )
        }
    }
}

/// Leaving lots of an item lists no item twice.
proof fn with_lots_is_valid<N: Number>(
    s: TrackerState<N>,
    item_name: Seq<char>,
    lots: Seq<BuyCostLot<N>>,
)
    requires
        s.is_valid(),
    ensures
        s.with_lots(item_name, lots).is_valid(),
{
    crate::listing::lookup_after_with_entry(s.lots, match_key(item_name), lots, item_name);
    crate::listing::lookup_after_without_entry(s.lots, match_key(item_name), item_name);
}

impl<N: Number> BazaarOrderTracker<N> {
    /// What the remaining cost lots of an item have cost.
    pub fn remaining_cost_lot_value_for(&self, item_name: &str) -> (r: N)
        ensures
            r == lots_value(self@.lots_of(item_name@)),
    {
        match self.buy_cost_lots.get(normalize_for_match(item_name).as_str()) {
            Some(lots) => value_lots(lots),
            None => N::from_u64(0),
        }
    }

    /// How many units the remaining cost lots of an item hold.
    pub fn remaining_cost_lot_amount_for(&self, item_name: &str) -> (r: u64)
        ensures
            r == total_amount(self@.lots_of(item_name@)),
    {
        match self.buy_cost_lots.get(normalize_for_match(item_name).as_str()) {
            Some(lots) => count_units(lots),
            None => 0,
        }
    }

    /// What the oldest `amount` units of an item cost; nothing is used up.
    pub fn peek_fifo_cost_basis(&self, item_name: &str, amount: u64) -> (r: Option<N>)
        ensures
            r == self@.cost_basis(item_name@, amount),
    {
        if amount == 0 {
            return None;
        }
        match self.buy_cost_lots.get(normalize_for_match(item_name).as_str()) {
            Some(lots) => quote_lots(lots, amount),
            None => None,
        }
    }

    /// Tells whether a sell order may be placed at `now`.
    pub fn validate_sell_before_order_at(
        &mut self,
        item_name: &str,
        amount: u64,
        sell_price_per_unit: N,
        bazaar_tax_rate: N,
        now: u64,
    ) -> (r: SellProfitCheck<N>)
        ensures
            r == old(self)@.sell_check(item_name@, amount, sell_price_per_unit, bazaar_tax_rate),
            final(self)@ == old(self)@.after_sell_check(
                item_name@,
                amount,
                sell_price_per_unit,
                bazaar_tax_rate,
                now,
            ),
            old(self)@.is_valid() ==> final(self)@.is_valid(),
    {
        let tax_multiplier = N::from_u64(1).minus(
            bazaar_tax_rate.larger(N::from_u64(0)).over(N::from_u64(100)),
        );
        let expected_sell_after_tax = sell_price_per_unit.times(N::from_u64(amount)).times(
            tax_multiplier,
        );
        if amount == 0 || sell_price_per_unit.at_most(N::from_u64(0)) {
            return SellProfitCheck {
                allowed: false,
                reason: Some(SellBlockReason::InvalidSell),
                expected_sell_after_tax,
                fifo_cost_basis_total: N::from_u64(0),
                amount,
            };
        }
        let cost_basis = match self.peek_fifo_cost_basis(item_name, amount) {
            Some(cost) => cost,
            None => {
                let mut p = self.performance_record(item_name);
                p.unknown_cost_basis_count = p.unknown_cost_basis_count.wrapping_add(1);
                p.last_failure_timestamp = Some(now);
                p.block_reason = Some(SellBlockReason::UnknownCostBasis.as_str().to_string());
                self.store_performance(item_name, p);
                proof {
                    if old(self)@.is_valid() {
                        with_performance_is_valid(old(self)@, item_name@, p@);
                    }
                }
                return SellProfitCheck {
                    allowed: false,
                    reason: Some(SellBlockReason::UnknownCostBasis),
                    expected_sell_after_tax,
                    fifo_cost_basis_total: N::from_u64(0),
                    amount,
                };
            },
        };
        if expected_sell_after_tax.at_most(cost_basis) {
            let mut p = self.performance_record(item_name);
            p.negative_profit_block_count = p.negative_profit_block_count.wrapping_add(1);
            p.failed_flips = p.failed_flips.wrapping_add(1);
            p.last_failure_timestamp = Some(now);
            p.cooldown_until = Some(now.wrapping_add(NEGATIVE_PROFIT_COOLDOWN_SECONDS));
            p.block_reason = Some(SellBlockReason::NegativeExpectedProfit.as_str().to_string());
            self.store_performance(item_name, p);
            proof {
                if old(self)@.is_valid() {
                    with_performance_is_valid(old(self)@, item_name@, p@);
                }
            }
            return SellProfitCheck {
                allowed: false,
                reason: Some(SellBlockReason::NegativeExpectedProfit),
                expected_sell_after_tax,
                fifo_cost_basis_total: cost_basis,
                amount,
            };
        }
        SellProfitCheck {
            allowed: true,
            reason: None,
            expected_sell_after_tax,
            fifo_cost_basis_total: cost_basis,
            amount,
        }
    }

    /// Tells whether a sell order may be placed.
    pub fn validate_sell_before_order(
        &mut self,
        item_name: &str,
        amount: u64,
        sell_price_per_unit: N,
        bazaar_tax_rate: N,
    ) -> (r: SellProfitCheck<N>)
        ensures
            r == old(self)@.sell_check(item_name@, amount, sell_price_per_unit, bazaar_tax_rate),
            exists|now: u64|
                final(self)@ == #[trigger] old(self)@.after_sell_check(
                    item_name@,
                    amount,
                    sell_price_per_unit,
                    bazaar_tax_rate,
                    now,
                ),
            old(self)@.is_valid() ==> final(self)@.is_valid(),
    {
        let now = Self::now_secs();
        self.validate_sell_before_order_at(
            item_name,
            amount,
            sell_price_per_unit,
            bazaar_tax_rate,
            now,
        )
    }

    /// Records a buy order collected at `now` as a cost lot of its own. A lot
    /// without units or without a price is ignored.
    pub fn record_buy_cost_at(&mut self, item_name: &str, price_per_unit: N, amount: u64, now: u64)
        ensures
            final(self)@ == old(self)@.after_buy_cost(item_name@, price_per_unit, amount, now),
            old(self)@.is_valid() ==> final(self)@.is_valid(),
    {
        if amount == 0 || price_per_unit.at_most(N::from_u64(0)) {
            return;
        }
        let key = normalize_for_match(item_name);
        let lot = BuyCostLot { price_per_unit, amount, collected_at: now };
        let i = self.buy_cost_lots.find(key.as_str());
        proof {
            crate::listing::slot_is_first(self@.lots, key@);
            crate::listing::lookup_after_with_entry(
                self@.lots,
                key@,
                self@.lots_of(item_name@).push(lot),
                key@,
            );
        }
        if i < self.buy_cost_lots.len() {
            let lots = self.buy_cost_lots.value_at_mut(i);
            lots.push_back(lot);
        } else {
            let mut lots: VecDeque<BuyCostLot<N>> = VecDeque::new();
            lots.push_back(lot);
            self.buy_cost_lots.insert(key, lots);
        }
    }

    /// Records a collected buy order as a cost lot of its own.
    pub fn record_buy_cost(&mut self, item_name: &str, price_per_unit: N, amount: u64)
        ensures
            exists|now: u64|
                final(self)@ == #[trigger] old(self)@.after_buy_cost(
                    item_name@,
                    price_per_unit,
                    amount,
                    now,
                ),
            old(self)@.is_valid() ==> final(self)@.is_valid(),
    {
        let now = Self::now_secs();
        self.record_buy_cost_at(item_name, price_per_unit, amount, now);
    }

    /// Accounts a sell collected at `now` and returns its audit.
    pub fn account_sell_collect_at(
        &mut self,
        item_name: &str,
        sold_amount: u64,
        claimed_coins_after_tax: N,
        gross_list_value: Option<N>,
        now: u64,
    ) -> (r: SellProfitAudit<N>)
        ensures
            r@ == old(self)@.sell_audit(
                item_name@,
                sold_amount,
                claimed_coins_after_tax,
                gross_list_value,
            ),
            final(self)@ == old(self)@.after_sell_collect(
                item_name@,
                sold_amount,
                claimed_coins_after_tax,
                gross_list_value,
                now,
            ),
            old(self)@.is_valid() ==> final(self)@.is_valid(),
    {
        let ghost start = self@;
        let key = normalize_for_match(item_name);
        proof {
            if start.is_valid() {
                crate::listing::lookup_after_without_entry(start.planned, key@, key@);
            }
        }
        let _ = self.planned_local_sells.remove(key.as_str());
        let available = self.remaining_cost_lot_amount_for(item_name);
        let known_gross = match gross_list_value {
            Some(gross) => if claimed_coins_after_tax.at_most(N::from_u64(0))
                || !claimed_coins_after_tax.is_finite() {
                None
            } else {
                Some(gross)
            },
            None => None,
        };
        let gross = match known_gross {
            Some(gross) if sold_amount > 0 && available > 0 => gross,
            _ => {
                return self.account_unknown_sell(
                    item_name,
                    sold_amount,
                    claimed_coins_after_tax,
                    gross_list_value,
                    known_gross.is_some(),
                    now,
                );
            },
        };
        let known_fifo_amount = if sold_amount <= available {
            sold_amount
        } else {
            available
        };
        let unknown_fifo_amount = sold_amount - known_fifo_amount;
        let known_ratio = N::from_u64(known_fifo_amount).over(N::from_u64(sold_amount));
        let known_claimed = claimed_coins_after_tax.times(known_ratio);

        let ghost lots_before = start.lots_of(item_name@);
        proof {
            total_amount_is_bounded(lots_before);
            crate::listing::slot_is_first(start.lots, key@);
        }
        let i = self.buy_cost_lots.find(key.as_str());
        let lots = self.buy_cost_lots.value_at_mut(i);
        let (lots_used, cost_basis_total) = consume_lots(lots, known_fifo_amount);
        let value_left = value_lots(lots);
        let emptied = lots.len() == 0;
        let ghost left = left_lots(lots_before, known_fifo_amount);
        assert(self@.lots == with_entry(start.lots, key@, left));
        if emptied {
            let _ = self.buy_cost_lots.remove(key.as_str());
        }
        proof {
            assert(left =~= Seq::empty() <==> left.len() == 0);
            crate::listing::slot_is(with_entry(start.lots, key@, left), key@, i as int);
            assert(with_entry(start.lots, key@, left).remove(i as int) =~= start.lots.remove(
                i as int,
            ));
            if start.is_valid() {
                with_lots_is_valid(start, item_name@, left);
            }
        }
        let realized_profit = known_claimed.minus(cost_basis_total).rounded();
        let one = N::from_u64(1);
        let finished = value_left.at_most(one) && self.open_order_value_for(
            item_name,
            false,
        ).at_most(one) && self.open_order_value_for(item_name, true).at_most(one);
        let partial = unknown_fifo_amount > 0;
        let reason = if partial {
            let mut text = "partial_known_cost_basis: sold ".to_string();
            text.append(decimal_text(sold_amount).as_str());
            text.append(", known ");
            text.append(decimal_text(known_fifo_amount).as_str());
            text.append(", unknown ");
            text.append(decimal_text(unknown_fifo_amount).as_str());
            Some(text)
        } else {
            None
        };
        let audit = SellProfitAudit {
            item_name: item_name.to_string(),
            sold_amount: known_fifo_amount,
            claimed_coins_after_tax: known_claimed,
            gross_list_value: Some(gross.times(known_ratio)),
            lots_used,
            cost_basis_total,
            cost_basis_status: if partial {
                CostBasisStatus::PartialKnownCostBasis
            } else {
                CostBasisStatus::Known
            },
            realized_profit,
            reason,
        };
        self.book_audit(&audit, partial, now);
        self.book_sold(item_name, realized_profit, partial, finished, now);
        proof {
            if start.is_valid() {
                with_performance_is_valid(
                    TrackerState { performance: start.performance, ..self@ },
                    item_name@,
                    start.performance_of(item_name@).sold(realized_profit, partial, finished, now),
                );
            }
        }
        audit
    }

    /// Books an audit in the profit accounts.
    fn book_audit(&mut self, audit: &SellProfitAudit<N>, unknown_cost: bool, now: u64)
        ensures
            final(self)@ == (TrackerState {
                accounts: AccountsRecord {
                    realized_profit_total: old(self)@.accounts.realized_profit_total.wrapping_add(
                        audit.realized_profit,
                    ),
                    unknown_cost_basis_sells: if unknown_cost {
                        old(self)@.accounts.unknown_cost_basis_sells.wrapping_add(1)
                    } else {
                        old(self)@.accounts.unknown_cost_basis_sells
                    },
                    last_sell_audit: Some(audit@),
                    last_sell_audit_at: Some(now),
                    ..old(self)@.accounts
                },
                ..old(self)@
            }),
    {
        self.profit_audit.current_fifo_realized_profit_total =
        self.profit_audit.current_fifo_realized_profit_total.wrapping_add(audit.realized_profit);
        if unknown_cost {
            self.profit_audit.unknown_cost_basis_sell_total_count =
            self.profit_audit.unknown_cost_basis_sell_total_count.wrapping_add(1);
        }
        self.profit_audit.last_sell_audit = Some(audit.copy());
        self.profit_audit.last_sell_audit_at = Some(now);
    }

    /// Books a collected sell in the performance of its item.
    fn book_sold(&mut self, item_name: &str, profit: i64, partial: bool, finished: bool, now: u64)
        ensures
            final(self)@ == old(self)@.with_performance(
                item_name@,
                old(self)@.performance_of(item_name@).sold(profit, partial, finished, now),
            ),
    {
        let mut p = self.performance_record(item_name);
        p.sell_orders_filled = p.sell_orders_filled.wrapping_add(1);
        p.realized_profit_total = p.realized_profit_total.wrapping_add(profit);
        if partial {
            p.unknown_cost_basis_count = p.unknown_cost_basis_count.wrapping_add(1);
            p.failed_flips = p.failed_flips.wrapping_add(1);
            p.last_failure_timestamp = Some(now);
        }
        if profit > 0 {
            p.successful_flips = p.successful_flips.wrapping_add(1);
            p.last_success_timestamp = Some(now);
            if finished {
                p.cooldown_until = None;
                p.block_reason = None;
            }
        } else {
            p.failed_flips = p.failed_flips.wrapping_add(1);
            p.last_failure_timestamp = Some(now);
        }
        let flips = if p.successful_flips >= 1 {
            p.successful_flips
        } else {
            1
        };
        p.avg_realized_profit_per_flip = N::from_i64(p.realized_profit_total).over(
            N::from_u64(flips),
        );
        self.store_performance(item_name, p);
    }

    /// Accounts a sell of which nothing can be realized.
    fn account_unknown_sell(
        &mut self,
        item_name: &str,
        sold_amount: u64,
        claimed_coins_after_tax: N,
        gross_list_value: Option<N>,
        claim_known: bool,
        now: u64,
    ) -> (r: SellProfitAudit<N>)
        requires
            !old(self)@.is_accountable(
                item_name@,
                sold_amount,
                claimed_coins_after_tax,
                gross_list_value,
            ),
            claim_known == is_known_claim(claimed_coins_after_tax, gross_list_value),
        ensures
            r@ == old(self)@.sell_audit(
                item_name@,
                sold_amount,
                claimed_coins_after_tax,
                gross_list_value,
            ),
            final(self)@ == (TrackerState {
                planned: old(self)@.planned,
                ..old(self)@.after_sell_collect(
                    item_name@,
                    sold_amount,
                    claimed_coins_after_tax,
                    gross_list_value,
                    now,
                )
            }),
            old(self)@.is_valid() ==> final(self)@.is_valid(),
    {
        let reason = if sold_amount == 0 {
            "sold_amount_zero".to_string()
        } else if !claim_known {
            "missing_known_sell_claim_value".to_string()
        } else {
            let mut text = "insufficient_fifo_lots: needed ".to_string();
            text.append(decimal_text(sold_amount).as_str());
            text.append(", available ");
            text.append(decimal_text(0).as_str());
            text
        };
        let audit = SellProfitAudit {
            item_name: item_name.to_string(),
            sold_amount,
            claimed_coins_after_tax,
            gross_list_value,
            lots_used: Vec::new(),
            cost_basis_total: N::from_u64(0),
            cost_basis_status: CostBasisStatus::UnknownCostBasis,
            realized_profit: 0,
            reason: Some(reason.clone()),
        };
        self.book_audit(&audit, true, now);
        let mut p = self.performance_record(item_name);
        p.unknown_cost_basis_count = p.unknown_cost_basis_count.wrapping_add(1);
        p.failed_flips = p.failed_flips.wrapping_add(1);
        p.last_failure_timestamp = Some(now);
        p.block_reason = Some(reason);
        self.store_performance(item_name, p);
        proof {
            if old(self)@.is_valid() {
                with_performance_is_valid(old(self)@, item_name@, p@);
            }
        }
        audit
    }

    /// Accounts a collected sell and returns its audit.
    pub fn account_sell_collect(
        &mut self,
        item_name: &str,
        sold_amount: u64,
        claimed_coins_after_tax: N,
        gross_list_value: Option<N>,
    ) -> (r: SellProfitAudit<N>)
        ensures
            r@ == old(self)@.sell_audit(
                item_name@,
                sold_amount,
                claimed_coins_after_tax,
                gross_list_value,
            ),
            exists|now: u64|
                final(self)@ == #[trigger] old(self)@.after_sell_collect(
                    item_name@,
                    sold_amount,
                    claimed_coins_after_tax,
                    gross_list_value,
                    now,
                ),
            old(self)@.is_valid() ==> final(self)@.is_valid(),
    {
        let now = Self::now_secs();
        self.account_sell_collect_at(
            item_name,
            sold_amount,
            claimed_coins_after_tax,
            gross_list_value,
            now,
        )
    }

    /// Takes all lots of an item and returns the average price and the units.
    pub fn take_buy_cost(&mut self, item_name: &str) -> (r: Option<(N, u64)>)
        ensures
            ({
                let lots = old(self)@.lots_of(item_name@);
                let units = total_amount(lots);
                r == (if units == 0 {
                    None
                } else {
                    Some((lots_value(lots).spec_over(N::whole(units)), units))
                })
            }),
            r == old(self)@.average_cost(item_name@),
            final(self)@ == old(self)@.with_lots(item_name@, Seq::empty()),
            old(self)@.is_valid() ==> final(self)@.is_valid(),
    {
        proof {
            if self@.is_valid() {
                with_lots_is_valid(self@, item_name@, Seq::empty());
            }
        }
        let lots = match self.buy_cost_lots.remove(normalize_for_match(item_name).as_str()) {
            Some(lots) => lots,
            None => {
                return None;
            },
        };
        let amount = count_units(&lots);
        if amount == 0 {
            return None;
        }
        Some((value_lots(&lots).over(N::from_u64(amount)), amount))
    }

    /// Drops, at `now`, the lots of an item that are not in the inventory.
    pub fn mark_cost_lots_missing_from_inventory_at(
        &mut self,
        item_name: &str,
        observed_inventory_amount: u64,
        now: u64,
    ) -> (r: Option<(u64, N)>)
        ensures
            r == old(self)@.missing_units(item_name@, observed_inventory_amount),
            final(self)@ == old(self)@.after_excess_missing(
                item_name@,
                observed_inventory_amount,
                now,
            ),
            old(self)@.is_valid() ==> final(self)@.is_valid(),
    {
        self.mark_cost_lot_excess_missing_from_inventory_at(
            item_name,
            observed_inventory_amount,
            observed_inventory_amount,
            now,
        )
    }

    /// Drops the lots of an item that are not in the inventory.
    pub fn mark_cost_lots_missing_from_inventory(
        &mut self,
        item_name: &str,
        observed_inventory_amount: u64,
    ) -> (r: Option<(u64, N)>)
        ensures
            r == old(self)@.missing_units(item_name@, observed_inventory_amount),
            exists|now: u64|
                final(self)@ == #[trigger] old(self)@.after_excess_missing(
                    item_name@,
                    observed_inventory_amount,
                    now,
                ),
            old(self)@.is_valid() ==> final(self)@.is_valid(),
    {
        let now = Self::now_secs();
        self.mark_cost_lots_missing_from_inventory_at(item_name, observed_inventory_amount, now)
    }

    /// Drops, at `now`, the units of an item's lots beyond `keep_amount`,
    /// newest first, and returns how many went and what they had cost.
    pub fn mark_cost_lot_excess_missing_from_inventory_at(
        &mut self,
        item_name: &str,
        keep_amount: u64,
        _observed_inventory_amount: u64,
        now: u64,
    ) -> (r: Option<(u64, N)>)
        ensures
            r == old(self)@.missing_units(item_name@, keep_amount),
            final(self)@ == old(self)@.after_excess_missing(item_name@, keep_amount, now),
            old(self)@.is_valid() ==> final(self)@.is_valid(),
    {
        let ghost start = self@;
        let key = normalize_for_match(item_name);
        let total = self.remaining_cost_lot_amount_for(item_name);
        let excess = total.saturating_sub(keep_amount);
        if excess == 0 {
            return None;
        }
        let ghost lots_before = start.lots_of(item_name@);
        proof {
            total_amount_is_bounded(lots_before);
            crate::listing::slot_is_first(start.lots, key@);
        }
        let i = self.buy_cost_lots.find(key.as_str());
        let lots = self.buy_cost_lots.value_at_mut(i);
        let (removed_amount, removed_value) = drop_newest_lots(lots, excess);
        let emptied = lots.len() == 0;
        let ghost kept = kept_lots(lots_before, excess);
        assert(self@.lots == with_entry(start.lots, key@, kept));
        if emptied {
            let _ = self.buy_cost_lots.remove(key.as_str());
            let _ = self.planned_local_sells.remove(key.as_str());
        }
        proof {
            crate::listing::slot_is(with_entry(start.lots, key@, kept), key@, i as int);
            assert(with_entry(start.lots, key@, kept).remove(i as int) =~= start.lots.remove(
                i as int,
            ));
            if start.is_valid() {
                with_lots_is_valid(start, item_name@, kept);
                crate::listing::lookup_after_without_entry(start.planned, key@, key@);
            }
        }
        let mut p = self.performance_record(item_name);
        p.failed_flips = p.failed_flips.wrapping_add(removed_amount);
        p.last_failure_timestamp = Some(now);
        p.cooldown_until = Some(now.wrapping_add(MISSING_INVENTORY_COOLDOWN_SECONDS));
        p.block_reason = Some("COST_LOT_NOT_IN_INVENTORY".to_string());
        proof {
            if start.is_valid() {
                with_performance_is_valid(self@, item_name@, p@);
            }
        }
        self.store_performance(item_name, p);
        Some((removed_amount, removed_value))
    }

    /// Drops the units of an item's lots beyond `keep_amount`, newest first,
    /// and returns how many went and what they had cost.
    pub fn mark_cost_lot_excess_missing_from_inventory(
        &mut self,
        item_name: &str,
        keep_amount: u64,
        observed_inventory_amount: u64,
    ) -> (r: Option<(u64, N)>)
        ensures
            r == old(self)@.missing_units(item_name@, keep_amount),
            exists|now: u64|
                final(self)@ == #[trigger] old(self)@.after_excess_missing(
                    item_name@,
                    keep_amount,
                    now,
                ),
            old(self)@.is_valid() ==> final(self)@.is_valid(),
    {
        let now = Self::now_secs();
        self.mark_cost_lot_excess_missing_from_inventory_at(
            item_name,
            keep_amount,
            observed_inventory_amount,
            now,
        )
    }
}

impl<N: Number> TrackerState<N> {
    /// What a unit of an item has cost on average, and how many are held; `None`
    /// where none are.
    pub open spec fn average_cost(self, item_name: Seq<char>) -> Option<(N, u64)> {
        let lots = self.lots_of(item_name);
        let units = total_amount(lots);
        if units == 0 {
            None
        } else {
            Some((lots_value(lots).spec_over(N::whole(units)), units))
        }
    }

    /// The units of an item beyond `keep_amount` and what they have cost;
    /// `None` where there are none.
    pub open spec fn missing_units(self, item_name: Seq<char>, keep_amount: u64) -> Option<(u64, N)> {
        let excess = self.excess_units(item_name, keep_amount);
        if excess == 0 {
            None
        } else {
            Some((excess, usage_cost(dropped_lots(self.lots_of(item_name), excess))))
        }
    }
}

/// Peeking foretells collecting: where the cost of the oldest units is known,
/// a collected sell of as many books exactly that cost, and the claim less that
/// cost, rounded, is the profit that it realizes.
pub proof fn peeked_cost_is_realized<N: Number>(
    s: TrackerState<N>,
    item_name: Seq<char>,
    amount: u64,
    claimed: N,
    gross_list_value: Option<N>,
)
    requires
        s.cost_basis(item_name, amount) is Some,
        amount_sum(s.lots_of(item_name)) <= u64::MAX,
        is_known_claim(claimed, gross_list_value),
    ensures
        ({
            let cost = s.cost_basis(item_name, amount)->0;
            let audit = s.sell_audit(item_name, amount, claimed, gross_list_value);
            &&& audit.cost_basis_status == CostBasisStatus::Known
            &&& audit.sold_amount == amount
            &&& audit.cost_basis_total == cost
            &&& audit.claimed_coins_after_tax == claimed
            &&& audit.realized_profit == claimed.spec_minus(cost).spec_rounded()
        }),
{
    total_amount_is_bounded(s.lots_of(item_name));
    N::whole_over_itself(amount);
    N::times_one(claimed);
}

/// A sell order that passes the check realizes, when all of it is collected,
/// the claim less the cost that the check announced.
pub proof fn checked_cost_is_realized<N: Number>(
    s: TrackerState<N>,
    item_name: Seq<char>,
    amount: u64,
    price_per_unit: N,
    tax_rate: N,
    claimed: N,
    gross_list_value: Option<N>,
)
    requires
        s.sell_check(item_name, amount, price_per_unit, tax_rate).allowed,
        amount_sum(s.lots_of(item_name)) <= u64::MAX,
        is_known_claim(claimed, gross_list_value),
    ensures
        ({
            let cost = s.sell_check(item_name, amount, price_per_unit, tax_rate).fifo_cost_basis_total;
            let audit = s.sell_audit(item_name, amount, claimed, gross_list_value);
            &&& audit.cost_basis_status == CostBasisStatus::Known
            &&& audit.cost_basis_total == cost
            &&& audit.realized_profit == claimed.spec_minus(cost).spec_rounded()
        }),
{
    peeked_cost_is_realized(s, item_name, amount, claimed, gross_list_value);
}

/// Checking a sell order uses up no lots, moves no orders and books nothing.
pub proof fn sell_check_keeps_books<N: Number>(
    s: TrackerState<N>,
    item_name: Seq<char>,
    amount: u64,
    price_per_unit: N,
    tax_rate: N,
    now: u64,
)
    ensures
        ({
            let after = s.after_sell_check(item_name, amount, price_per_unit, tax_rate, now);
            &&& after.orders == s.orders
            &&& after.lots == s.lots
            &&& after.accounts == s.accounts
            &&& after.planned == s.planned
        }),
{
}

/// A sell without a known cost realizes nothing and uses up no lots.
pub proof fn unknown_cost_realizes_nothing<N: Number>(
    s: TrackerState<N>,
    item_name: Seq<char>,
    sold_amount: u64,
    claimed: N,
    gross_list_value: Option<N>,
    now: u64,
)
    requires
        s.sell_audit(item_name, sold_amount, claimed, gross_list_value).cost_basis_status
            == CostBasisStatus::UnknownCostBasis,
    ensures
        ({
            let after = s.after_sell_collect(
                item_name,
                sold_amount,
                claimed,
                gross_list_value,
                now,
            );
            &&& after.accounts.realized_profit_total == s.accounts.realized_profit_total
            &&& after.accounts.unknown_cost_basis_sells
                == s.accounts.unknown_cost_basis_sells.wrapping_add(1)
            &&& after.lots == s.lots
        }),
{
}

/// A collected sell takes exactly the units that its audit reports from the
/// lots of its item, and leaves the lots of every other item.
pub proof fn collected_units_leave_the_lots<N: Number>(
    s: TrackerState<N>,
    item_name: Seq<char>,
    sold_amount: u64,
    claimed: N,
    gross_list_value: Option<N>,
    now: u64,
    other: Seq<char>,
)
    requires
        s.is_valid(),
        s.is_accountable(item_name, sold_amount, claimed, gross_list_value),
    ensures
        ({
            let after = s.after_sell_collect(
                item_name,
                sold_amount,
                claimed,
                gross_list_value,
                now,
            );
            let audit = s.sell_audit(item_name, sold_amount, claimed, gross_list_value);
            &&& amount_sum(after.lots_of(item_name)) == amount_sum(s.lots_of(item_name))
                - audit.sold_amount
            &&& match_key(other) != match_key(item_name) ==> after.lots_of(other) == s.lots_of(
                other,
            )
        }),
{
    let lots = s.lots_of(item_name);
    let known = s.known_units(item_name, sold_amount);
    total_amount_is_bounded(lots);
    fifo_conserves_units(lots, known);
    let left = left_lots(lots, known);
    crate::listing::lookup_after_with_entry(s.lots, match_key(item_name), left, match_key(other));
    crate::listing::lookup_after_without_entry(s.lots, match_key(item_name), match_key(other));
}

/// A recorded buy adds its units to the lots of its item, and a sell of as many
/// units has a known cost from then on.
pub proof fn recorded_buy_backs_a_sell<N: Number>(
    s: TrackerState<N>,
    item_name: Seq<char>,
    price_per_unit: N,
    amount: u64,
    now: u64,
)
    requires
        amount > 0,
        !price_per_unit.spec_at_most(N::whole(0)),
    ensures
        ({
            let after = s.after_buy_cost(item_name, price_per_unit, amount, now);
            &&& amount_sum(after.lots_of(item_name)) == amount_sum(s.lots_of(item_name)) + amount
            &&& after.cost_basis(item_name, amount) is Some
        }),
{
    let lot = BuyCostLot { price_per_unit, amount, collected_at: now };
    let more = s.lots_of(item_name).push(lot);
    crate::listing::lookup_after_with_entry(
        s.lots,
        match_key(item_name),
        more,
        match_key(item_name),
    );
    assert(more.drop_last() =~= s.lots_of(item_name));
}

} // verus!
