//! A scan: from the products of the market to the best flips.

use vstd::prelude::*;
use vstd::string::*;

use crate::bazaar_scanner::config::LocalBazaarScanConfig;
use crate::bazaar_scanner::flips::{
    flip_records, market_record, market_snapshot, plan_flip, FlipRecord, LocalBazaarFlip, Prospect,
};
use crate::bazaar_scanner::history::{
    history_factors, market_records, recent, reliability, MarketHistory, MarketRecord,
    MarketSnapshot,
};
use crate::bazaar_scanner::limits::capital_share;
use crate::bazaar_scanner::market::{BazaarProduct, BazaarResponse, MarketUnavailable};
use crate::bazaar_scanner::risk::{spike_note, RejectReason};
use crate::bazaar_scanner::screening::{
    figures_of, is_classic, is_classic_flip, liquidity_notes, note_if, risk_notes_for,
    screen_product, screen_reason,
};
use crate::bazaar_tracker::performance::larger_of;
use crate::listing::{with_entry, Entries};
use crate::number::{clamp, clamped, fraction, ratio, Number};
use crate::text::{same_text, texts};

verus! {

/// What is left for active use after the reserve.
pub open spec fn active_share_limit<N: Number>(config: LocalBazaarScanConfig<N>) -> N {
    N::whole(1).spec_minus(clamped(config.reserve_ratio, N::whole(0), ratio(95, 100)))
}

/// The reserve leaves at least a twentieth for active use. Only a reserve that
/// is no number does not.
pub open spec fn reserve_is_usable<N: Number>(config: LocalBazaarScanConfig<N>) -> bool {
    ratio::<N>(5, 100).spec_at_most(active_share_limit(config))
}

/// The capital in active use.
pub open spec fn active_capital_of<N: Number>(config: LocalBazaarScanConfig<N>) -> N {
    N::whole(config.total_capital).spec_times(
        clamped(config.active_capital_ratio, ratio(5, 100), active_share_limit(config)),
    ).spec_larger(N::whole(0))
}

/// Whether the reserve leaves at least a twentieth for active use.
pub fn has_usable_reserve<N: Number>(config: &LocalBazaarScanConfig<N>) -> (r: bool)
    ensures
        r == reserve_is_usable(*config),
{
    let least: N = fraction(5, 100);
    least.at_most(
        N::from_u64(1).minus(clamp(config.reserve_ratio, N::from_u64(0), fraction(95, 100))),
    )
}

/// The capital in active use.
pub fn active_capital<N: Number>(config: &LocalBazaarScanConfig<N>) -> (r: N)
    requires
        reserve_is_usable(*config),
    ensures
        r == active_capital_of(*config),
{
    let limit = N::from_u64(1).minus(
        clamp(config.reserve_ratio, N::from_u64(0), fraction(95, 100)),
    );
    N::from_u64(config.total_capital).times(
        clamp(config.active_capital_ratio, fraction(5, 100), limit),
    ).larger(N::from_u64(0))
}

/// Why no product is looked at at all.
pub open spec fn scan_block<N: Number>(config: LocalBazaarScanConfig<N>) -> Option<RejectReason> {
    let capital = N::whole(config.total_capital);
    if config.total_capital > 0 && capital_share(
        capital,
        config.max_cost_lot_capital_ratio,
    ).spec_below(config.total_cost_lot_value) {
        Some(RejectReason::TooMuchOpenCostBasis)
    } else if config.total_capital > 0 && capital_share(
        capital,
        config.max_open_buy_capital_ratio,
    ).spec_below(config.open_buy_capital) {
        Some(RejectReason::TooMuchOpenCapital)
    } else if config.inventory_free_slots <= config.min_free_inventory_slots {
        Some(RejectReason::InventoryRisk)
    } else if config.active_buy_order_count >= config.max_pending_buy_stacks {
        Some(RejectReason::TooManyActiveBuys)
    } else if config.active_sell_order_count > larger_of(
        config.max_pending_buy_stacks.wrapping_mul(2),
        4,
    ) {
        Some(RejectReason::TooManyActiveSells)
    } else {
        None
    }
}

/// Why no product is looked at at all.
pub fn blocked_scan<N: Number>(config: &LocalBazaarScanConfig<N>) -> (r: Option<RejectReason>)
    ensures
        r == scan_block(*config),
{
    if config.total_capital > 0 {
        let one = N::from_u64(1);
        let cap = N::from_u64(config.total_capital);
        let cost_limit = cap.times(
            clamp(config.max_cost_lot_capital_ratio, fraction(5, 100), one),
        );
        if cost_limit.below(config.total_cost_lot_value) {
            return Some(RejectReason::TooMuchOpenCostBasis);
        }
        let buy_limit = cap.times(clamp(config.max_open_buy_capital_ratio, fraction(5, 100), one));
        if buy_limit.below(config.open_buy_capital) {
            return Some(RejectReason::TooMuchOpenCapital);
        }
    }
    if config.inventory_free_slots <= config.min_free_inventory_slots {
        return Some(RejectReason::InventoryRisk);
    }
    if config.active_buy_order_count >= config.max_pending_buy_stacks {
        return Some(RejectReason::TooManyActiveBuys);
    }
    let twice = config.max_pending_buy_stacks.wrapping_mul(2);
    let most_sells = if twice >= 4 {
        twice
    } else {
        4
    };
    if config.active_sell_order_count > most_sells {
        return Some(RejectReason::TooManyActiveSells);
    }
    None
}

/// What a scan has found so far.
pub struct ScanRecord<N> {
    pub history: Entries<Seq<MarketRecord<N>>>,
    pub candidates: Seq<FlipRecord<N>>,
    /// The candidates as they are noted in the market log.
    pub logged: Seq<MarketRecord<N>>,
    pub rejected: Seq<RejectReason>,
}

/// From when on snapshots of a product count.
pub open spec fn history_cutoff<N>(config: LocalBazaarScanConfig<N>, timestamp: u64) -> u64 {
    timestamp.saturating_sub(larger_of(config.history_window_minutes, 5).wrapping_mul(60))
}

/// The notes on a product, with the one on its history.
pub open spec fn all_notes<N: Number>(
    product: BazaarProduct<N>,
    note: Option<Seq<char>>,
    config: LocalBazaarScanConfig<N>,
) -> Seq<Seq<char>> {
    liquidity_notes(figures_of(product, config), config) + note_if(note is Some, note->0)
}

/// One product more is looked at. Past the first screening its prices enter the
/// history, whether or not it becomes a candidate.
pub open spec fn scan_product<N: Number>(
    r: ScanRecord<N>,
    tag: Seq<char>,
    product: BazaarProduct<N>,
    config: LocalBazaarScanConfig<N>,
    timestamp: u64,
) -> ScanRecord<N> {
    match screen_reason(tag, product, config) {
        Some(reason) => ScanRecord { rejected: r.rejected.push(reason), ..r },
        None => {
            let f = figures_of(product, config);
            let past = recent(r.history, tag, history_cutoff(config, timestamp));
            let rel = reliability(past, f.sell_price, f.spec_spread());
            let active = active_capital_of(config);
            let prospect = Prospect {
                tag,
                classic: is_classic_flip(tag, config),
                product,
                figures: f,
                stability: rel.stability,
                spread_reliability: rel.spread_reliability,
                notes: all_notes(product, rel.note, config),
            };
            let unstable = if rel.note == Some(spike_note()) {
                r.rejected.push(RejectReason::UnstableHistory)
            } else {
                r.rejected
            };
            let history = with_entry(
                r.history,
                tag,
                past.push(market_record(tag, f, timestamp, N::whole(0), "pending"@)),
            );
            match prospect.plan_reason(active, config) {
                Some(reason) => ScanRecord { history, rejected: unstable.push(reason), ..r },
                None => {
                    let flip = prospect.flip(active, config);
                    ScanRecord {
                        history,
                        candidates: r.candidates.push(flip),
                        logged: r.logged.push(
                            market_record(
                                tag,
                                f,
                                timestamp,
                                flip.score,
                                flip.risk_level.name(),
                            ),
                        ),
                        rejected: unstable,
                    }
                },
            }
        },
    }
}

/// All products are looked at in turn.
pub open spec fn scan_products<N: Number>(
    start: ScanRecord<N>,
    products: Seq<(String, BazaarProduct<N>)>,
    config: LocalBazaarScanConfig<N>,
    timestamp: u64,
) -> ScanRecord<N>
    decreases products.len(),
{
    if products.len() == 0 {
        start
    } else {
        scan_product(
            scan_products(start, products.drop_last(), config, timestamp),
            products.last().0@,
            products.last().1,
            config,
            timestamp,
        )
    }
}

/// Flip `a` comes before flip `b`: more profit per hour, then more volume, then
/// a better margin.
pub open spec fn ranks_above<N: Number>(a: FlipRecord<N>, b: FlipRecord<N>) -> bool {
    let profit = (
        a.risk_adjusted_expected_profit_per_hour,
        b.risk_adjusted_expected_profit_per_hour,
    );
    let volume = (a.volume_value_hour, b.volume_value_hour);
    let roi = (a.roi_after_tax, b.roi_after_tax);
    profit.1.spec_below(profit.0) || (!profit.0.spec_below(profit.1) && (volume.1.spec_below(
        volume.0,
    ) || (!volume.0.spec_below(volume.1) && roi.1.spec_below(roi.0))))
}

/// `flip` takes its place behind those that it does not rank above.
pub open spec fn with_ranked<N: Number>(
    ranked: Seq<FlipRecord<N>>,
    flip: FlipRecord<N>,
) -> Seq<FlipRecord<N>>
    decreases ranked.len(),
{
    if ranked.len() == 0 || !ranks_above(flip, ranked.last()) {
        ranked.push(flip)
    } else {
        with_ranked(ranked.drop_last(), flip).push(ranked.last())
    }
}

/// The flips in their ranking; equals stay in their order.
pub open spec fn ranking<N: Number>(flips: Seq<FlipRecord<N>>) -> Seq<FlipRecord<N>>
    decreases flips.len(),
{
    if flips.len() == 0 {
        Seq::empty()
    } else {
        with_ranked(ranking(flips.drop_last()), flips.last())
    }
}

/// The capital that some flips take together.
pub open spec fn capital_sum<N: Number>(flips: Seq<FlipRecord<N>>) -> N
    decreases flips.len(),
{
    if flips.len() == 0 {
        N::whole(0)
    } else {
        capital_sum(flips.drop_last()).spec_plus(flips.last().allocated_capital)
    }
}

/// The flips that the budget is enough for, taken in turn.
pub open spec fn within_budget<N: Number>(flips: Seq<FlipRecord<N>>, budget: N) -> Seq<
    FlipRecord<N>,
>
    decreases flips.len(),
{
    if flips.len() == 0 {
        Seq::empty()
    } else {
        let before = within_budget(flips.drop_last(), budget);
        if budget.spec_below(capital_sum(before).spec_plus(flips.last().allocated_capital)) {
            before
        } else {
            before.push(flips.last())
        }
    }
}

/// How many flips are returned at most.
pub open spec fn useful_limit<N>(limit: usize, config: LocalBazaarScanConfig<N>) -> u64 {
    larger_of(limit as u64, larger_of(config.max_items as u64, 1))
}

/// The capital that the flips of a scan may take together.
pub open spec fn capital_budget<N: Number>(limit: usize, config: LocalBazaarScanConfig<N>) -> N {
    let active = active_capital_of(config);
    if config.max_order_value == 0 {
        active
    } else {
        active.spec_smaller(
            N::whole(config.max_order_value).spec_times(N::whole(useful_limit(limit, config))),
        )
    }
}

/// The candidates that are returned: the best that fit the budget.
pub open spec fn best_of<N: Number>(
    candidates: Seq<FlipRecord<N>>,
    limit: usize,
    config: LocalBazaarScanConfig<N>,
) -> Seq<FlipRecord<N>> {
    crate::bazaar_scanner::market::first_of(
        within_budget(ranking(candidates), capital_budget(limit, config)),
        useful_limit(limit, config) as nat,
    )
}

/// The reasons for those candidates that the budget is not enough for.
pub open spec fn over_budget<N: Number>(
    candidates: Seq<FlipRecord<N>>,
    limit: usize,
    config: LocalBazaarScanConfig<N>,
) -> Seq<RejectReason> {
    let budget = capital_budget(limit, config);
    Seq::new(
        (candidates.len() - within_budget(ranking(candidates), budget).len()) as nat,
        |i: int| RejectReason::CapitalLimit,
    )
}

/// The result of a scan.
#[derive(Debug, Clone)]
pub struct ScanReport<N> {
    pub flips: Vec<LocalBazaarFlip<N>>,
    /// The candidates as they are noted in the market log.
    pub logged: Vec<MarketSnapshot<N>>,
    /// Why products were left out, one reason each, and which had an unstable
    /// history.
    pub rejected: Vec<RejectReason>,
    /// The capital of all candidates that fit the budget.
    pub allocated_total: N,
}

/// A scan under way.
struct Scan<N> {
    history: MarketHistory<N>,
    candidates: Vec<LocalBazaarFlip<N>>,
    logged: Vec<MarketSnapshot<N>>,
    rejected: Vec<RejectReason>,
}

impl<N> View for Scan<N> {
    type V = ScanRecord<N>;

    closed spec fn view(&self) -> ScanRecord<N> {
        ScanRecord {
            history: self.history@,
            candidates: flip_records(self.candidates@),
            logged: market_records(self.logged@),
            rejected: self.rejected@,
        }
    }
}

impl<N: Number> Scan<N> {
    fn look_at(
        &mut self,
        item_tag: &str,
        product: &BazaarProduct<N>,
        active: N,
        config: &LocalBazaarScanConfig<N>,
        timestamp: u64,
    )
        requires
            active == active_capital_of(*config),
        ensures
            final(self)@ == scan_product(old(self)@, item_tag@, *product, *config, timestamp),
    {
        let f = match screen_product(item_tag, product, config) {
            Ok(f) => f,
            Err(reason) => {
                self.rejected.push(reason);
                return;
            },
        };
        let window = if config.history_window_minutes >= 5 {
            config.history_window_minutes
        } else {
            5
        };
        let cutoff = timestamp.saturating_sub(window.wrapping_mul(60));
        let mut snapshots = self.history.recent_snapshots(item_tag, cutoff);
        let (stability, spread_reliability, note) = history_factors(
            &snapshots,
            f.sell_price,
            f.spread(),
        );
        let ghost past = market_records(snapshots@);
        let pending = market_snapshot(item_tag, &f, timestamp, N::from_u64(0), "pending");
        snapshots.push(pending);
        assert(market_records(snapshots@) =~= past.push(pending@));
        self.history.store(item_tag, snapshots);

        let ghost rel = reliability(past, f.sell_price, f.spec_spread());
        let mut notes = risk_notes_for(&f, config);
        if let Some(text) = note {
            if same_text(text.as_str(), "price_or_spread_spike") {
                self.rejected.push(RejectReason::UnstableHistory);
            }
            let ghost before = notes@;
            notes.push(text);
            assert(texts(notes@) =~= texts(before).push(text@));
        }
        assert(texts(notes@) =~= all_notes(*product, rel.note, *config));
        let classic = is_classic(item_tag, config);
        match plan_flip(
            item_tag,
            classic,
            product,
            &f,
            stability,
            spread_reliability,
            notes,
            active,
            config,
        ) {
            Ok(flip) => {
                let entry = market_snapshot(
                    item_tag,
                    &f,
                    timestamp,
                    flip.score,
                    flip.risk_level.as_str(),
                );
                let ghost logged = self.logged@;
                let ghost candidates = self.candidates@;
                self.logged.push(entry);
                self.candidates.push(flip);
                assert(market_records(self.logged@) =~= market_records(logged).push(entry@));
                assert(flip_records(self.candidates@) =~= flip_records(candidates).push(flip@));
            },
            Err(reason) => {
                self.rejected.push(reason);
            },
        }
    }
}

/// Whether flip `a` comes before flip `b`.
fn is_above<N: Number>(a: &LocalBazaarFlip<N>, b: &LocalBazaarFlip<N>) -> (r: bool)
    ensures
        r == ranks_above(a@, b@),
{
    if b.risk_adjusted_expected_profit_per_hour.below(a.risk_adjusted_expected_profit_per_hour) {
        return true;
    }
    if a.risk_adjusted_expected_profit_per_hour.below(b.risk_adjusted_expected_profit_per_hour) {
        return false;
    }
    if b.volume_value_hour.below(a.volume_value_hour) {
        return true;
    }
    if a.volume_value_hour.below(b.volume_value_hour) {
        return false;
    }
    b.roi_after_tax.below(a.roi_after_tax)
}

/// The place of a flip.
proof fn ranked_place<N: Number>(ranked: Seq<FlipRecord<N>>, flip: FlipRecord<N>, pos: int)
    requires
        0 <= pos <= ranked.len(),
        forall|j: int| pos <= j < ranked.len() ==> ranks_above(flip, #[trigger] ranked[j]),
        pos > 0 ==> !ranks_above(flip, ranked[pos - 1]),
    ensures
        with_ranked(ranked, flip) == ranked.insert(pos, flip),
    decreases ranked.len(),
{
    if pos < ranked.len() {
        let rest = ranked.drop_last();
        assert(ranks_above(flip, ranked[ranked.len() - 1]));
        assert forall|j: int| pos <= j < rest.len() implies ranks_above(
            flip,
            #[trigger] rest[j],
        ) by {
            assert(ranks_above(flip, ranked[j]));
        }
        ranked_place(rest, flip, pos);
        assert(rest.insert(pos, flip).push(ranked.last()) =~= ranked.insert(pos, flip));
    } else {
        assert(ranked.insert(pos, flip) =~= ranked.push(flip));
    }
}

/// The flips in their ranking.
pub fn rank_flips<N: Number>(flips: &Vec<LocalBazaarFlip<N>>) -> (r: Vec<LocalBazaarFlip<N>>)
    ensures
        flip_records(r@) == ranking(flip_records(flips@)),
        r.len() == flips.len(),
{
    let ghost all = flip_records(flips@);
    let mut out: Vec<LocalBazaarFlip<N>> = Vec::new();
    let mut i: usize = 0;
    assert(flip_records(out@) =~= Seq::empty());
    while i < flips.len()
        invariant
            i <= flips.len(),
            out.len() == i,
            all == flip_records(flips@),
            flip_records(out@) == ranking(all.take(i as int)),
        decreases flips.len() - i,
    {
        let flip = flips[i].copy();
        let ghost ranked = flip_records(out@);
        let mut pos: usize = out.len();
        while pos > 0 && is_above(&flip, &out[pos - 1])
            invariant
                pos <= out.len(),
                ranked == flip_records(out@),
                forall|j: int| pos <= j < ranked.len() ==> ranks_above(flip@, #[trigger] ranked[j]),
            decreases pos,
        {
            assert(ranked[pos - 1] == out@[pos - 1]@);
            pos = pos - 1;
        }
        proof {
            if pos > 0 {
                assert(ranked[pos - 1] == out@[pos - 1]@);
            }
            ranked_place(ranked, flip@, pos as int);
            assert(all.take(i + 1).drop_last() =~= all.take(i as int));
        }
        let ghost before = out@;
        out.insert(pos, flip);
        assert(flip_records(out@) =~= flip_records(before).insert(pos as int, flip@));
        i = i + 1;
    }
    assert(all.take(i as int) =~= all);
    out
}

/// The flips that the budget is enough for, and the capital that they take.
pub fn fit_budget<N: Number>(flips: &Vec<LocalBazaarFlip<N>>, budget: N) -> (r: (
    Vec<LocalBazaarFlip<N>>,
    N,
))
    ensures
        flip_records(r.0@) == within_budget(flip_records(flips@), budget),
        r.0.len() <= flips.len(),
        r.1 == capital_sum(within_budget(flip_records(flips@), budget)),
{
    let ghost all = flip_records(flips@);
    let mut out: Vec<LocalBazaarFlip<N>> = Vec::new();
    let mut total: N = N::from_u64(0);
    let mut i: usize = 0;
    assert(flip_records(out@) =~= Seq::empty());
    while i < flips.len()
        invariant
            i <= flips.len(),
            out.len() <= i,
            all == flip_records(flips@),
            flip_records(out@) == within_budget(all.take(i as int), budget),
            total == capital_sum(flip_records(out@)),
        decreases flips.len() - i,
    {
        assert(all.take(i + 1).drop_last() =~= all.take(i as int));
        let next = total.plus(flips[i].allocated_capital);
        if !budget.below(next) {
            let ghost before = out@;
            let flip = flips[i].copy();
            out.push(flip);
            proof {
                assert(flip_records(out@) =~= flip_records(before).push(flip@));
                assert(flip_records(out@).drop_last() =~= flip_records(before));
            }
            total = next;
        }
        i = i + 1;
    }
    assert(all.take(i as int) =~= all);
    (out, total)
}

/// The contents of the report of a scan.
pub open spec fn is_report_of<N: Number>(
    report: ScanReport<N>,
    found: ScanRecord<N>,
    limit: usize,
    config: LocalBazaarScanConfig<N>,
) -> bool {
    &&& flip_records(report.flips@) == best_of(found.candidates, limit, config)
    &&& market_records(report.logged@) == found.logged
    &&& report.rejected@ == found.rejected + over_budget(found.candidates, limit, config)
    &&& report.allocated_total == capital_sum(
        within_budget(ranking(found.candidates), capital_budget(limit, config)),
    )
}

/// The best flips among the products of the market at `timestamp`.
///
/// The prices of the products that pass the first screening enter the history.
pub fn best_flips<N: Number>(
    response: &BazaarResponse<N>,
    config: &LocalBazaarScanConfig<N>,
    limit: usize,
    history: &mut MarketHistory<N>,
    timestamp: u64,
) -> (r: Result<ScanReport<N>, MarketUnavailable>)
    requires
        response.success ==> reserve_is_usable(*config),
    ensures
        r is Ok <==> response.success,
        match r {
            Ok(report) => match scan_block(*config) {
                Some(reason) => {
                    &&& report.flips@.len() == 0
                    &&& report.logged@.len() == 0
                    &&& report.rejected@ == seq![reason]
                    &&& report.allocated_total == N::whole(0)
                    &&& final(history)@ == old(history)@
                },
                None => {
                    let found = scan_products(
                        ScanRecord {
                            history: old(history)@,
                            candidates: Seq::empty(),
                            logged: Seq::empty(),
                            rejected: Seq::empty(),
                        },
                        response.products@,
                        *config,
                        timestamp,
                    );
                    &&& is_report_of(report, found, limit, *config)
                    &&& final(history)@ == found.history
                },
            },
            Err(_) => final(history)@ == old(history)@,
        },
{
    if !response.success {
        return Err(MarketUnavailable);
    }
    let active = active_capital(config);
    if let Some(reason) = blocked_scan(config) {
        let mut rejected: Vec<RejectReason> = Vec::new();
        rejected.push(reason);
        assert(rejected@ =~= seq![reason]);
        return Ok(
            ScanReport {
                flips: Vec::new(),
                logged: Vec::new(),
                rejected,
                allocated_total: N::from_u64(0),
            },
        );
    }
    let ghost start = ScanRecord {
        history: history@,
        candidates: Seq::<FlipRecord<N>>::empty(),
        logged: Seq::<MarketRecord<N>>::empty(),
        rejected: Seq::<RejectReason>::empty(),
    };
    let ghost products = response.products@;
    let mut known: MarketHistory<N> = MarketHistory::new();
    std::mem::swap(&mut known, history);
    let mut scan = Scan {
        history: known,
        candidates: Vec::new(),
        logged: Vec::new(),
        rejected: Vec::new(),
    };
    assert(scan@.candidates =~= start.candidates);
    assert(scan@.logged =~= start.logged);
    let mut i: usize = 0;
    while i < response.products.len()
        invariant
            i <= products.len(),
            products == response.products@,
            active == active_capital_of(*config),
            scan@ == scan_products(start, products.take(i as int), *config, timestamp),
        decreases products.len() - i,
    {
        assert(products.take(i + 1).drop_last() =~= products.take(i as int));
        let entry = &response.products[i];
        scan.look_at(entry.0.as_str(), &entry.1, active, config, timestamp);
        i = i + 1;
    }
    assert(products.take(i as int) =~= products);
    *history = scan.history;

    let ranked = rank_flips(&scan.candidates);
    let items = config.max_items as u64;
    let at_least = if items >= 1 {
        items
    } else {
        1
    };
    let useful = if limit as u64 >= at_least {
        limit as u64
    } else {
        at_least
    };
    let budget = if config.max_order_value == 0 {
        active
    } else {
        active.smaller(N::from_u64(config.max_order_value).times(N::from_u64(useful)))
    };
    let (mut flips, allocated_total) = fit_budget(&ranked, budget);
    let left_out: usize = ranked.len() - flips.len();
    let ghost fitting = flip_records(flips@);
    let mut rejected = scan.rejected;
    let ghost before = rejected@;
    let mut k: usize = 0;
    assert(before + Seq::<RejectReason>::new(0, |j: int| RejectReason::CapitalLimit) =~= before);
    while k < left_out
        invariant
            k <= left_out,
            rejected@ == before + Seq::<RejectReason>::new(
                k as nat,
                |j: int| RejectReason::CapitalLimit,
            ),
        decreases left_out - k,
    {
        rejected.push(RejectReason::CapitalLimit);
        assert(rejected@ =~= before + Seq::<RejectReason>::new(
            (k + 1) as nat,
            |j: int| RejectReason::CapitalLimit,
        ));
        k = k + 1;
    }
    if (flips.len() as u64) > useful {
        flips.truncate(useful as usize);
        assert(flip_records(flips@) =~= fitting.take(useful as int));
    }
    Ok(ScanReport { flips, logged: scan.logged, rejected, allocated_total })
}

/// The risk-adjusted profits per hour of some flips together.
pub open spec fn adjusted_profit_sum<N: Number>(flips: Seq<FlipRecord<N>>) -> N
    decreases flips.len(),
{
    if flips.len() == 0 {
        N::whole(0)
    } else {
        adjusted_profit_sum(flips.drop_last()).spec_plus(
            flips.last().risk_adjusted_expected_profit_per_hour,
        )
    }
}

/// The expected profits per hour of some flips together.
pub open spec fn expected_profit_sum<N: Number>(flips: Seq<FlipRecord<N>>) -> N
    decreases flips.len(),
{
    if flips.len() == 0 {
        N::whole(0)
    } else {
        expected_profit_sum(flips.drop_last()).spec_plus(flips.last().expected_profit_per_hour)
    }
}

/// What some flips promise together, and how the capital is used.
#[derive(Debug, Clone, Copy)]
pub struct ScanSummary<N> {
    pub expected_total: N,
    pub risk_adjusted_total: N,
    pub hourly_roi: N,
    pub target_met: bool,
    pub active_capital: N,
    pub reserved_capital: N,
    pub free_capital: N,
}

/// The summary of the flips that a scan returns.
pub open spec fn summary_of<N: Number>(
    flips: Seq<FlipRecord<N>>,
    allocated_total: N,
    config: LocalBazaarScanConfig<N>,
) -> ScanSummary<N> {
    let zero = N::whole(0);
    let capital = N::whole(config.total_capital);
    let active = active_capital_of(config);
    let total = adjusted_profit_sum(flips);
    ScanSummary {
        expected_total: expected_profit_sum(flips),
        risk_adjusted_total: total,
        hourly_roi: if config.total_capital > 0 {
            total.spec_over(capital)
        } else {
            zero
        },
        target_met: config.target_profit_per_hour.spec_larger(N::whole(2000000)).spec_at_most(
            total,
        ),
        active_capital: active,
        reserved_capital: capital.spec_minus(active).spec_larger(zero),
        free_capital: active.spec_minus(allocated_total).spec_larger(zero),
    }
}

/// Sums up the flips that a scan returns.
pub fn summarize_scan<N: Number>(report: &ScanReport<N>, config: &LocalBazaarScanConfig<N>) -> (r:
    ScanSummary<N>)
    requires
        reserve_is_usable(*config),
    ensures
        r == summary_of(flip_records(report.flips@), report.allocated_total, *config),
{
    let ghost all = flip_records(report.flips@);
    let zero = N::from_u64(0);
    let mut expected_total = zero;
    let mut risk_adjusted_total = zero;
    let mut i: usize = 0;
    while i < report.flips.len()
        invariant
            i <= report.flips.len(),
            all == flip_records(report.flips@),
            expected_total == expected_profit_sum(all.take(i as int)),
            risk_adjusted_total == adjusted_profit_sum(all.take(i as int)),
        decreases report.flips.len() - i,
    {
        assert(all.take(i + 1).drop_last() =~= all.take(i as int));
        expected_total = expected_total.plus(report.flips[i].expected_profit_per_hour);
        risk_adjusted_total = risk_adjusted_total.plus(
            report.flips[i].risk_adjusted_expected_profit_per_hour,
        );
        i = i + 1;
    }
    assert(all.take(i as int) =~= all);
    let capital = N::from_u64(config.total_capital);
    let active = active_capital(config);
    ScanSummary {
        expected_total,
        risk_adjusted_total,
        hourly_roi: if config.total_capital > 0 {
            risk_adjusted_total.over(capital)
        } else {
            zero
        },
        target_met: config.target_profit_per_hour.larger(N::from_u64(2000000)).at_most(
            risk_adjusted_total,
        ),
        active_capital: active,
        reserved_capital: capital.minus(active).larger(zero),
        free_capital: active.minus(report.allocated_total).larger(zero),
    }
}

} // verus!
