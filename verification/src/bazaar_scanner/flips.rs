//! Flips: how much capital a product gets and what it is expected to earn.

use vstd::prelude::*;
use vstd::string::*;

use crate::bazaar_scanner::config::LocalBazaarScanConfig;
use crate::bazaar_scanner::history::{MarketRecord, MarketSnapshot};
use crate::bazaar_scanner::item_tags::{item_tag_to_name, product_name};
use crate::bazaar_scanner::market::{
    count_top_orders, first_of, order_count, BazaarProduct, QuickStatus,
};
use crate::bazaar_scanner::risk::{
    recommendation, recommendation_for, risk_level, risk_level_for, Recommendation, RejectReason,
    RiskLevel,
};
use crate::bazaar_scanner::scoring::{blank_metrics, practical_score, PracticalItemMetrics};
use crate::bazaar_scanner::screening::ProductFigures;
use crate::bazaar_tracker::lots::smaller_of;
use crate::bazaar_tracker::performance::larger_of;
use crate::number::{clamp, clamped, fraction, ratio, Number};
use crate::text::texts;

verus! {

/// A flip: buy a product at one price, sell it at another.
#[derive(Debug, Clone)]
pub struct LocalBazaarFlip<N> {
    pub item_tag: String,
    pub item_name: String,
    pub amount: u64,
    pub buy_price_per_unit: N,
    pub sell_price_per_unit: N,
    pub profit_per_unit: N,
    pub total_profit: N,
    pub margin_percent: N,
    pub buy_volume: u64,
    pub sell_volume: u64,
    pub moving_week: u64,
    pub estimated_profit_per_hour: N,
    pub score: N,
    pub product_id: String,
    pub best_buy_order: N,
    pub best_sell_offer: N,
    pub target_buy_price: N,
    pub target_sell_price: N,
    pub spread_before_tax: N,
    pub spread_after_tax: N,
    pub roi_after_tax: N,
    pub buy_volume_hour: N,
    pub sell_volume_hour: N,
    pub volume_value_hour: N,
    pub top_buy_depth_value: N,
    pub top_sell_depth_value: N,
    pub avg_buy_depth_value: N,
    pub avg_sell_depth_value: N,
    pub depth_5_buy_value: N,
    pub depth_5_sell_value: N,
    pub estimated_cycles_per_hour: N,
    pub allocated_capital: N,
    pub expected_profit_per_hour: N,
    pub risk_adjusted_expected_profit_per_hour: N,
    pub risk_level: RiskLevel,
    pub risk_notes: Vec<String>,
    pub recommendation: Recommendation,
}

/// The contents of a flip.
pub struct FlipRecord<N> {
    pub item_tag: Seq<char>,
    pub item_name: Seq<char>,
    pub amount: u64,
    pub buy_price_per_unit: N,
    pub sell_price_per_unit: N,
    pub profit_per_unit: N,
    pub total_profit: N,
    pub margin_percent: N,
    pub buy_volume: u64,
    pub sell_volume: u64,
    pub moving_week: u64,
    pub estimated_profit_per_hour: N,
    pub score: N,
    pub product_id: Seq<char>,
    pub best_buy_order: N,
    pub best_sell_offer: N,
    pub target_buy_price: N,
    pub target_sell_price: N,
    pub spread_before_tax: N,
    pub spread_after_tax: N,
    pub roi_after_tax: N,
    pub buy_volume_hour: N,
    pub sell_volume_hour: N,
    pub volume_value_hour: N,
    pub top_buy_depth_value: N,
    pub top_sell_depth_value: N,
    pub avg_buy_depth_value: N,
    pub avg_sell_depth_value: N,
    pub depth_5_buy_value: N,
    pub depth_5_sell_value: N,
    pub estimated_cycles_per_hour: N,
    pub allocated_capital: N,
    pub expected_profit_per_hour: N,
    pub risk_adjusted_expected_profit_per_hour: N,
    pub risk_level: RiskLevel,
    pub risk_notes: Seq<Seq<char>>,
    pub recommendation: Recommendation,
}

impl<N> View for LocalBazaarFlip<N> {
    type V = FlipRecord<N>;

    open spec fn view(&self) -> FlipRecord<N> {
        FlipRecord {
            item_tag: self.item_tag@,
            item_name: self.item_name@,
            amount: self.amount,
            buy_price_per_unit: self.buy_price_per_unit,
            sell_price_per_unit: self.sell_price_per_unit,
            profit_per_unit: self.profit_per_unit,
            total_profit: self.total_profit,
            margin_percent: self.margin_percent,
            buy_volume: self.buy_volume,
            sell_volume: self.sell_volume,
            moving_week: self.moving_week,
            estimated_profit_per_hour: self.estimated_profit_per_hour,
            score: self.score,
            product_id: self.product_id@,
            best_buy_order: self.best_buy_order,
            best_sell_offer: self.best_sell_offer,
            target_buy_price: self.target_buy_price,
            target_sell_price: self.target_sell_price,
            spread_before_tax: self.spread_before_tax,
            spread_after_tax: self.spread_after_tax,
            roi_after_tax: self.roi_after_tax,
            buy_volume_hour: self.buy_volume_hour,
            sell_volume_hour: self.sell_volume_hour,
            volume_value_hour: self.volume_value_hour,
            top_buy_depth_value: self.top_buy_depth_value,
            top_sell_depth_value: self.top_sell_depth_value,
            avg_buy_depth_value: self.avg_buy_depth_value,
            avg_sell_depth_value: self.avg_sell_depth_value,
            depth_5_buy_value: self.depth_5_buy_value,
            depth_5_sell_value: self.depth_5_sell_value,
            estimated_cycles_per_hour: self.estimated_cycles_per_hour,
            allocated_capital: self.allocated_capital,
            expected_profit_per_hour: self.expected_profit_per_hour,
            risk_adjusted_expected_profit_per_hour: self.risk_adjusted_expected_profit_per_hour,
            risk_level: self.risk_level,
            risk_notes: texts(self.risk_notes@),
            recommendation: self.recommendation,
        }
    }
}

/// The contents of a list of flips.
pub open spec fn flip_records<N>(flips: Seq<LocalBazaarFlip<N>>) -> Seq<FlipRecord<N>> {
    flips.map_values(|f: LocalBazaarFlip<N>| f@)
}

/// The same texts again.
fn copy_texts(v: &Vec<String>) -> (r: Vec<String>)
    ensures
        texts(r@) == texts(v@),
{
    let mut out: Vec<String> = Vec::new();
    let mut i: usize = 0;
    while i < v.len()
        invariant
            i <= v.len(),
            out.len() == i,
            forall|j: int| 0 <= j < i ==> (#[trigger] out@[j])@ == v@[j]@,
        decreases v.len() - i,
    {
        out.push(v[i].clone());
        i = i + 1;
    }
    assert(texts(out@) =~= texts(v@));
    out
}

impl<N: Number> LocalBazaarFlip<N> {
    /// The same flip again.
    pub fn copy(&self) -> (r: Self)
        ensures
            r@ == self@,
    {
        LocalBazaarFlip {
            item_tag: self.item_tag.clone(),
            item_name: self.item_name.clone(),
            amount: self.amount,
            buy_price_per_unit: self.buy_price_per_unit,
            sell_price_per_unit: self.sell_price_per_unit,
            profit_per_unit: self.profit_per_unit,
            total_profit: self.total_profit,
            margin_percent: self.margin_percent,
            buy_volume: self.buy_volume,
            sell_volume: self.sell_volume,
            moving_week: self.moving_week,
            estimated_profit_per_hour: self.estimated_profit_per_hour,
            score: self.score,
            product_id: self.product_id.clone(),
            best_buy_order: self.best_buy_order,
            best_sell_offer: self.best_sell_offer,
            target_buy_price: self.target_buy_price,
            target_sell_price: self.target_sell_price,
            spread_before_tax: self.spread_before_tax,
            spread_after_tax: self.spread_after_tax,
            roi_after_tax: self.roi_after_tax,
            buy_volume_hour: self.buy_volume_hour,
            sell_volume_hour: self.sell_volume_hour,
            volume_value_hour: self.volume_value_hour,
            top_buy_depth_value: self.top_buy_depth_value,
            top_sell_depth_value: self.top_sell_depth_value,
            avg_buy_depth_value: self.avg_buy_depth_value,
            avg_sell_depth_value: self.avg_sell_depth_value,
            depth_5_buy_value: self.depth_5_buy_value,
            depth_5_sell_value: self.depth_5_sell_value,
            estimated_cycles_per_hour: self.estimated_cycles_per_hour,
            allocated_capital: self.allocated_capital,
            expected_profit_per_hour: self.expected_profit_per_hour,
            risk_adjusted_expected_profit_per_hour: self.risk_adjusted_expected_profit_per_hour,
            risk_level: self.risk_level,
            risk_notes: copy_texts(&self.risk_notes),
            recommendation: self.recommendation,
        }
    }
}

/// How much of the market's flow an order can count on.
#[derive(Debug, Clone, Copy)]
pub struct FillOutlook<N> {
    pub competition_factor: N,
    pub liquidity_factor: N,
    pub fill_probability_factor: N,
    pub capturable_units_hour: N,
}

/// The outlook for an order on a product, among `pressure` other orders.
pub open spec fn outlook_of<N: Number>(
    f: ProductFigures<N>,
    pressure: u64,
    stability: N,
    config: LocalBazaarScanConfig<N>,
) -> FillOutlook<N> {
    let one = N::whole(1);
    let competition = clamped(
        one.spec_over(one.spec_plus(N::whole(pressure).spec_over(N::whole(400)))),
        ratio(25, 100),
        one,
    );
    let liquidity = clamped(
        f.volume_value_hour.spec_over(config.preferred_volume_value_hour.spec_larger(one)),
        ratio(15, 100),
        one,
    );
    let depth = clamped(f.spec_depth_5().spec_over(N::whole(2000000)), ratio(15, 100), one);
    let fill = clamped(
        liquidity.spec_times(ratio(45, 100)).spec_plus(
            depth.spec_times(ratio(35, 100)),
        ).spec_plus(competition.spec_times(ratio(20, 100))),
        ratio(5, 100),
        one,
    );
    let usual = clamped(
        config.market_participation_rate.spec_larger(config.conservative_market_participation_rate),
        ratio(1, 100),
        ratio(30, 100),
    );
    let participation = if competition.spec_below(ratio(45, 100)) || stability.spec_below(
        ratio(55, 100),
    ) {
        usual.spec_smaller(
            clamped(
                config.conservative_market_participation_rate,
                ratio(1, 100),
                ratio(20, 100),
            ),
        )
    } else {
        usual
    };
    FillOutlook {
        competition_factor: competition,
        liquidity_factor: liquidity,
        fill_probability_factor: fill,
        capturable_units_hour: f.bottleneck_units_hour.spec_times(participation).spec_times(fill),
    }
}

fn fill_outlook<N: Number>(
    f: &ProductFigures<N>,
    pressure: u64,
    stability: N,
    config: &LocalBazaarScanConfig<N>,
) -> (r: FillOutlook<N>)
    ensures
        r == outlook_of(*f, pressure, stability, *config),
{
    let one = N::from_u64(1);
    let competition_factor = clamp(
        one.over(one.plus(N::from_u64(pressure).over(N::from_u64(400)))),
        fraction(25, 100),
        one,
    );
    let liquidity_factor = clamp(
        f.volume_value_hour.over(config.preferred_volume_value_hour.larger(one)),
        fraction(15, 100),
        one,
    );
    let depth_factor = clamp(f.depth_5().over(N::from_u64(2000000)), fraction(15, 100), one);
    let fill_probability_factor = clamp(
        liquidity_factor.times(fraction(45, 100)).plus(depth_factor.times(fraction(35, 100))).plus(
            competition_factor.times(fraction(20, 100)),
        ),
        fraction(5, 100),
        one,
    );
    let mut participation_rate = clamp(
        config.market_participation_rate.larger(config.conservative_market_participation_rate),
        fraction(1, 100),
        fraction(30, 100),
    );
    if competition_factor.below(fraction(45, 100)) || stability.below(fraction(55, 100)) {
        participation_rate = participation_rate.smaller(
            clamp(
                config.conservative_market_participation_rate,
                fraction(1, 100),
                fraction(20, 100),
            ),
        );
    }
    FillOutlook {
        competition_factor,
        liquidity_factor,
        fill_probability_factor,
        capturable_units_hour: f.bottleneck_units_hour.times(participation_rate).times(
            fill_probability_factor,
        ),
    }
}

/// The number of items that share the capital, at least one.
pub open spec fn item_slots<N>(config: LocalBazaarScanConfig<N>) -> u64 {
    larger_of(config.max_items as u64, 1)
}

fn count_item_slots<N: Number>(config: &LocalBazaarScanConfig<N>) -> (r: u64)
    ensures
        r == item_slots(*config),
{
    let items = config.max_items as u64;
    if items >= 1 {
        items
    } else {
        1
    }
}

/// The most capital that a product gets: its share of the active capital, the
/// configured caps, and what its market can take.
pub open spec fn capital_limit<N: Number>(
    f: ProductFigures<N>,
    o: FillOutlook<N>,
    active_capital: N,
    config: LocalBazaarScanConfig<N>,
) -> N {
    let share = active_capital.spec_times(
        N::whole(1).spec_over(N::whole(item_slots(config))).spec_larger(
            ratio(15, 100),
        ).spec_smaller(
            clamped(config.buy_sell_balance_limit, ratio(15, 100), ratio(30, 100)),
        ),
    );
    let configured = N::whole(
        if config.max_capital_per_item == 0 {
            config.max_order_value
        } else {
            config.max_capital_per_item
        },
    );
    let order = if config.max_order_value == 0 {
        configured
    } else {
        N::whole(config.max_order_value)
    };
    let flow = clamped(f.sell_to_buy_flow_ratio, ratio(10, 100), N::whole(1));
    let market = f.volume_value_hour.spec_times(ratio(35, 100)).spec_times(flow).spec_smaller(
        f.spec_depth_5().spec_times(ratio(125, 100)),
    ).spec_smaller(o.capturable_units_hour.spec_times(f.buy_price));
    active_capital.spec_smaller(share).spec_smaller(configured).spec_smaller(order).spec_smaller(
        market,
    ).spec_larger(N::whole(0))
}

fn capital_cap<N: Number>(
    f: &ProductFigures<N>,
    o: &FillOutlook<N>,
    active_capital: N,
    config: &LocalBazaarScanConfig<N>,
) -> (r: N)
    ensures
        r == capital_limit(*f, *o, active_capital, *config),
{
    let one = N::from_u64(1);
    let per_item_cap_from_ratio = active_capital.times(
        one.over(N::from_u64(count_item_slots(config))).larger(fraction(15, 100)).smaller(
            clamp(config.buy_sell_balance_limit, fraction(15, 100), fraction(30, 100)),
        ),
    );
    let max_configured_cap: N = N::from_u64(
        if config.max_capital_per_item == 0 {
            config.max_order_value
        } else {
            config.max_capital_per_item
        },
    );
    let max_order_cap = if config.max_order_value == 0 {
        max_configured_cap
    } else {
        N::from_u64(config.max_order_value)
    };
    let flow = clamp(f.sell_to_buy_flow_ratio, fraction(10, 100), one);
    let liquidity_cap = f.volume_value_hour.times(fraction(35, 100)).times(flow).smaller(
        f.depth_5().times(fraction(125, 100)),
    ).smaller(o.capturable_units_hour.times(f.buy_price));
    active_capital.smaller(per_item_cap_from_ratio).smaller(max_configured_cap).smaller(
        max_order_cap,
    ).smaller(liquidity_cap).larger(N::from_u64(0))
}

/// How many units are bought with `capital`.
pub open spec fn units_for<N: Number>(
    capital: N,
    f: ProductFigures<N>,
    config: LocalBazaarScanConfig<N>,
) -> u64 {
    smaller_of(
        larger_of(capital.spec_over(f.buy_price).spec_whole_part(), 1),
        larger_of(config.max_amount, 1),
    )
}

/// What a flip of some units is expected to earn.
#[derive(Debug, Clone, Copy)]
pub struct FlipPlan<N> {
    pub amount: u64,
    pub allocated_capital: N,
    pub total_profit: N,
    pub estimated_cycles_per_hour: N,
    pub expected_profit_per_hour: N,
    pub risk_multiplier: N,
    pub risk_adjusted: N,
}

/// The plan for a flip of `amount` units with `notes` notes against it.
pub open spec fn plan_of<N: Number>(
    amount: u64,
    f: ProductFigures<N>,
    o: FillOutlook<N>,
    stability: N,
    spread_reliability: N,
    notes: nat,
) -> FlipPlan<N> {
    let units = N::whole(amount);
    let allocated = f.buy_price.spec_times(units);
    let cycles = clamped(
        o.capturable_units_hour.spec_over(units),
        ratio(5, 100),
        N::whole(12),
    );
    let expected = allocated.spec_times(f.margin_percent.spec_over(N::whole(100))).spec_times(
        cycles,
    );
    let multiplier = clamped(
        o.liquidity_factor.spec_times(stability).spec_times(spread_reliability).spec_times(
            o.fill_probability_factor,
        ).spec_times(o.competition_factor).spec_minus(
            N::whole(notes as u64).spec_times(ratio(8, 100)),
        ),
        ratio(5, 100),
        N::whole(1),
    );
    FlipPlan {
        amount,
        allocated_capital: allocated,
        total_profit: f.profit_per_unit.spec_times(units),
        estimated_cycles_per_hour: cycles,
        expected_profit_per_hour: expected,
        risk_multiplier: multiplier,
        risk_adjusted: expected.spec_times(multiplier),
    }
}

fn flip_plan<N: Number>(
    amount: u64,
    f: &ProductFigures<N>,
    o: &FillOutlook<N>,
    stability: N,
    spread_reliability: N,
    notes: usize,
) -> (r: FlipPlan<N>)
    ensures
        r == plan_of(amount, *f, *o, stability, spread_reliability, notes as nat),
{
    let units = N::from_u64(amount);
    let allocated_capital = f.buy_price.times(units);
    let estimated_cycles_per_hour = clamp(
        o.capturable_units_hour.over(units),
        fraction(5, 100),
        N::from_u64(12),
    );
    let expected_profit_per_hour = allocated_capital.times(
        f.margin_percent.over(N::from_u64(100)),
    ).times(estimated_cycles_per_hour);
    let risk_penalty = N::from_u64(notes as u64).times(fraction(8, 100));
    let risk_multiplier = clamp(
        o.liquidity_factor.times(stability).times(spread_reliability).times(
            o.fill_probability_factor,
        ).times(o.competition_factor).minus(risk_penalty),
        fraction(5, 100),
        N::from_u64(1),
    );
    FlipPlan {
        amount,
        allocated_capital,
        total_profit: f.profit_per_unit.times(units),
        estimated_cycles_per_hour,
        expected_profit_per_hour,
        risk_multiplier,
        risk_adjusted: expected_profit_per_hour.times(risk_multiplier),
    }
}

/// The profit per hour that each item should contribute.
pub open spec fn item_target<N: Number>(config: LocalBazaarScanConfig<N>) -> N {
    config.target_profit_per_hour.spec_larger(N::whole(2000000)).spec_over(
        N::whole(item_slots(config)),
    )
}

/// The metrics of a planned flip.
pub open spec fn plan_metrics<N: Number>(
    q: QuickStatus<N>,
    f: ProductFigures<N>,
    p: FlipPlan<N>,
) -> PracticalItemMetrics<N> {
    PracticalItemMetrics {
        expected_net_profit_after_tax: p.total_profit,
        expected_cycle_minutes: N::whole(60).spec_over(
            p.estimated_cycles_per_hour.spec_larger(ratio(5, 100)),
        ).spec_larger(N::whole(1)),
        buy_volume: q.buy_volume,
        sell_volume: q.sell_volume,
        moving_week: q.spec_moving_week(),
        order_count: smaller_of(q.buy_orders, q.sell_orders),
        volume_value_hour: f.volume_value_hour,
        ..blank_metrics::<N>()
    }
}

/// The score of a planned flip: its practical score, at least a quarter of its
/// risk-adjusted profit.
pub open spec fn plan_score<N: Number>(
    q: QuickStatus<N>,
    f: ProductFigures<N>,
    p: FlipPlan<N>,
) -> N {
    plan_metrics(q, f, p).practical().score.spec_larger(p.risk_adjusted.spec_times(ratio(25, 100)))
}

/// What is known of a product when it is planned.
pub struct Prospect<N> {
    pub tag: Seq<char>,
    pub classic: bool,
    pub product: BazaarProduct<N>,
    pub figures: ProductFigures<N>,
    pub stability: N,
    pub spread_reliability: N,
    pub notes: Seq<Seq<char>>,
}

impl<N: Number> Prospect<N> {
    pub open spec fn pressure(self) -> u64 {
        order_count(first_of(self.product.buy_summary@, 5)).wrapping_add(
            order_count(first_of(self.product.sell_summary@, 5)),
        )
    }

    pub open spec fn outlook(self, config: LocalBazaarScanConfig<N>) -> FillOutlook<N> {
        outlook_of(self.figures, self.pressure(), self.stability, config)
    }

    pub open spec fn capital(self, active_capital: N, config: LocalBazaarScanConfig<N>) -> N {
        capital_limit(self.figures, self.outlook(config), active_capital, config)
    }

    pub open spec fn plan(self, active_capital: N, config: LocalBazaarScanConfig<N>) -> FlipPlan<
        N,
    > {
        plan_of(
            units_for(self.capital(active_capital, config), self.figures, config),
            self.figures,
            self.outlook(config),
            self.stability,
            self.spread_reliability,
            self.notes.len(),
        )
    }

    pub open spec fn risk(self, active_capital: N, config: LocalBazaarScanConfig<N>) -> RiskLevel {
        risk_level(
            self.plan(active_capital, config).risk_multiplier,
            self.notes,
            self.figures.volume_value_hour,
        )
    }

    /// Why the product is left out after all.
    pub open spec fn plan_reason(
        self,
        active_capital: N,
        config: LocalBazaarScanConfig<N>,
    ) -> Option<RejectReason> {
        let p = self.plan(active_capital, config);
        let target = item_target(config);
        if self.capital(active_capital, config).spec_below(self.figures.buy_price) {
            Some(RejectReason::CapitalLimit)
        } else if p.total_profit.spec_below(config.min_total_profit) {
            Some(RejectReason::CapitalLimit)
        } else if N::whole(0).spec_below(target) && !self.classic && p.risk_adjusted.spec_below(
            target.spec_times(ratio(15, 100)),
        ) {
            Some(RejectReason::CapitalLimit)
        } else if self.risk(active_capital, config) is Extreme && !self.classic {
            Some(RejectReason::ManipulationRisk)
        } else {
            None
        }
    }

    /// The flip that the product offers.
    pub open spec fn flip(self, active_capital: N, config: LocalBazaarScanConfig<N>) -> FlipRecord<
        N,
    > {
        let q = self.product.quick_status;
        let f = self.figures;
        let p = self.plan(active_capital, config);
        let level = self.risk(active_capital, config);
        let score = plan_score(q, f, p);
        FlipRecord {
            item_tag: self.tag,
            item_name: product_name(self.tag),
            amount: p.amount,
            buy_price_per_unit: f.buy_price,
            sell_price_per_unit: f.sell_price,
            profit_per_unit: f.profit_per_unit,
            total_profit: p.total_profit,
            margin_percent: f.margin_percent,
            buy_volume: q.buy_volume,
            sell_volume: q.sell_volume,
            moving_week: q.spec_moving_week(),
            estimated_profit_per_hour: p.expected_profit_per_hour,
            score,
            product_id: self.tag,
            best_buy_order: f.best_buy_order,
            best_sell_offer: f.best_sell_offer,
            target_buy_price: f.buy_price,
            target_sell_price: f.sell_price,
            spread_before_tax: f.spec_spread(),
            spread_after_tax: f.profit_per_unit,
            roi_after_tax: f.margin_percent.spec_over(N::whole(100)),
            buy_volume_hour: f.buy_volume_hour,
            sell_volume_hour: f.sell_volume_hour,
            volume_value_hour: f.volume_value_hour,
            top_buy_depth_value: f.buy_depth.top_value,
            top_sell_depth_value: f.sell_depth.top_value,
            avg_buy_depth_value: f.buy_depth.avg_value,
            avg_sell_depth_value: f.sell_depth.avg_value,
            depth_5_buy_value: f.buy_depth.depth_5_value,
            depth_5_sell_value: f.sell_depth.depth_5_value,
            estimated_cycles_per_hour: p.estimated_cycles_per_hour,
            allocated_capital: p.allocated_capital,
            expected_profit_per_hour: p.expected_profit_per_hour,
            risk_adjusted_expected_profit_per_hour: score,
            risk_level: level,
            risk_notes: self.notes,
            recommendation: recommendation(
                f.margin_percent,
                f.volume_value_hour,
                level,
                config.target_roi_percent,
                config.preferred_volume_value_hour,
            ),
        }
    }
}

/// A product as it is noted in the history.
pub open spec fn market_record<N: Number>(
    tag: Seq<char>,
    f: ProductFigures<N>,
    timestamp: u64,
    score: N,
    risk: Seq<char>,
) -> MarketRecord<N> {
    MarketRecord {
        timestamp,
        product_id: tag,
        best_buy_order: f.best_buy_order,
        best_sell_offer: f.best_sell_offer,
        target_buy_price: f.buy_price,
        target_sell_price: f.sell_price,
        spread: f.spec_spread(),
        net_spread: f.profit_per_unit,
        roi: f.margin_percent.spec_over(N::whole(100)),
        buy_volume_hour: f.buy_volume_hour,
        sell_volume_hour: f.sell_volume_hour,
        top_buy_depth_value: f.buy_depth.top_value,
        top_sell_depth_value: f.sell_depth.top_value,
        score,
        risk_level: risk,
    }
}

/// A product as it is noted in the history.
pub fn market_snapshot<N: Number>(
    item_tag: &str,
    f: &ProductFigures<N>,
    timestamp: u64,
    score: N,
    risk: &str,
) -> (r: MarketSnapshot<N>)
    ensures
        r@ == market_record(item_tag@, *f, timestamp, score, risk@),
{
    MarketSnapshot {
        timestamp,
        product_id: item_tag.to_string(),
        best_buy_order: f.best_buy_order,
        best_sell_offer: f.best_sell_offer,
        target_buy_price: f.buy_price,
        target_sell_price: f.sell_price,
        spread: f.spread(),
        net_spread: f.profit_per_unit,
        roi: f.margin_percent.over(N::from_u64(100)),
        buy_volume_hour: f.buy_volume_hour,
        sell_volume_hour: f.sell_volume_hour,
        top_buy_depth_value: f.buy_depth.top_value,
        top_sell_depth_value: f.sell_depth.top_value,
        score,
        risk_level: risk.to_string(),
    }
}

/// Plans the flip that a product offers, or tells why it is left out.
pub fn plan_flip<N: Number>(
    item_tag: &str,
    classic: bool,
    product: &BazaarProduct<N>,
    f: &ProductFigures<N>,
    stability: N,
    spread_reliability: N,
    notes: Vec<String>,
    active_capital: N,
    config: &LocalBazaarScanConfig<N>,
) -> (r: Result<LocalBazaarFlip<N>, RejectReason>)
    ensures
        ({
            let prospect = Prospect {
                tag: item_tag@,
                classic,
                product: *product,
                figures: *f,
                stability,
                spread_reliability,
                notes: texts(notes@),
            };
            match r {
                Ok(flip) => prospect.plan_reason(active_capital, *config) is None && flip@
                    == prospect.flip(active_capital, *config),
                Err(reason) => prospect.plan_reason(active_capital, *config) == Some(reason),
            }
        }),
{
    let q = product.quick_status;
    let pressure = count_top_orders(&product.buy_summary).wrapping_add(
        count_top_orders(&product.sell_summary),
    );
    let o = fill_outlook(f, pressure, stability, config);
    let capital = capital_cap(f, &o, active_capital, config);
    if capital.below(f.buy_price) {
        return Err(RejectReason::CapitalLimit);
    }
    let affordable = capital.over(f.buy_price).whole_part();
    let wanted = if affordable >= 1 {
        affordable
    } else {
        1
    };
    let most = if config.max_amount >= 1 {
        config.max_amount
    } else {
        1
    };
    let amount = if wanted <= most {
        wanted
    } else {
        most
    };
    let p = flip_plan(amount, f, &o, stability, spread_reliability, notes.len());
    if p.total_profit.below(config.min_total_profit) {
        return Err(RejectReason::CapitalLimit);
    }
    let per_order_target = config.target_profit_per_hour.larger(N::from_u64(2000000)).over(
        N::from_u64(count_item_slots(config)),
    );
    if N::from_u64(0).below(per_order_target) && !classic && p.risk_adjusted.below(
        per_order_target.times(fraction(15, 100)),
    ) {
        return Err(RejectReason::CapitalLimit);
    }
    let level = risk_level_for(p.risk_multiplier, &notes, f.volume_value_hour);
    let extreme = match level {
        RiskLevel::Extreme => true,
        _ => false,
    };
    if extreme && !classic {
        return Err(RejectReason::ManipulationRisk);
    }
    let advice = recommendation_for(
        f.margin_percent,
        f.volume_value_hour,
        level,
        config.target_roi_percent,
        config.preferred_volume_value_hour,
    );
    let mut metrics: PracticalItemMetrics<N> = PracticalItemMetrics::default();
    metrics.expected_net_profit_after_tax = p.total_profit;
    metrics.expected_cycle_minutes = N::from_u64(60).over(
        p.estimated_cycles_per_hour.larger(fraction(5, 100)),
    ).larger(N::from_u64(1));
    metrics.buy_volume = q.buy_volume;
    metrics.sell_volume = q.sell_volume;
    metrics.moving_week = q.moving_week();
    metrics.order_count = if q.buy_orders <= q.sell_orders {
        q.buy_orders
    } else {
        q.sell_orders
    };
    metrics.volume_value_hour = f.volume_value_hour;
    let score = practical_score(&metrics).score.larger(p.risk_adjusted.times(fraction(25, 100)));
    Ok(
        LocalBazaarFlip {
            item_tag: item_tag.to_string(),
            item_name: item_tag_to_name(item_tag),
            amount,
            buy_price_per_unit: f.buy_price,
            sell_price_per_unit: f.sell_price,
            profit_per_unit: f.profit_per_unit,
            total_profit: p.total_profit,
            margin_percent: f.margin_percent,
            buy_volume: q.buy_volume,
            sell_volume: q.sell_volume,
            moving_week: q.moving_week(),
            estimated_profit_per_hour: p.expected_profit_per_hour,
            score,
            product_id: item_tag.to_string(),
            best_buy_order: f.best_buy_order,
            best_sell_offer: f.best_sell_offer,
            target_buy_price: f.buy_price,
            target_sell_price: f.sell_price,
            spread_before_tax: f.spread(),
            spread_after_tax: f.profit_per_unit,
            roi_after_tax: f.margin_percent.over(N::from_u64(100)),
            buy_volume_hour: f.buy_volume_hour,
            sell_volume_hour: f.sell_volume_hour,
            volume_value_hour: f.volume_value_hour,
            top_buy_depth_value: f.buy_depth.top_value,
            top_sell_depth_value: f.sell_depth.top_value,
            avg_buy_depth_value: f.buy_depth.avg_value,
            avg_sell_depth_value: f.sell_depth.avg_value,
            depth_5_buy_value: f.buy_depth.depth_5_value,
            depth_5_sell_value: f.sell_depth.depth_5_value,
            estimated_cycles_per_hour: p.estimated_cycles_per_hour,
            allocated_capital: p.allocated_capital,
            expected_profit_per_hour: p.expected_profit_per_hour,
            risk_adjusted_expected_profit_per_hour: score,
            risk_level: level,
            risk_notes: notes,
            recommendation: advice,
        },
    )
}

} // verus!
