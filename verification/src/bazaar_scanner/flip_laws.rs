//! How much capital a flip gets, how many units it buys and what it promises.

use vstd::prelude::*;
use vstd::string::*;

use crate::bazaar_scanner::config::LocalBazaarScanConfig;
use crate::bazaar_scanner::flips::{
    capital_limit, item_slots, item_target, market_record, outlook_of, plan_metrics, plan_of,
    units_for, FillOutlook, FlipPlan, FlipRecord, Prospect,
};
use crate::bazaar_scanner::history::{recent, reliability};
use crate::bazaar_scanner::item_tags::product_name;
use crate::bazaar_scanner::market::{first_of, order_count, BazaarProduct, QuickStatus};
use crate::bazaar_scanner::risk::{recommendation, risk_level, RejectReason};
use crate::bazaar_scanner::scan::{
    active_capital_of, all_notes, best_of, history_cutoff, scan_products, ScanRecord,
};
use crate::bazaar_scanner::scan_laws::best_are_candidates;
use crate::bazaar_scanner::screening::{figures_of, is_classic_flip, ProductFigures};
use crate::number::{
    clamped, clamped_stays_within, fraction_of_one_is_not_above, ratio, Number, OrderedNumber,
};

verus! {

/// A bound that is not below zero is not below `capital`.
pub open spec fn is_kept_within<N: Number>(capital: N, bound: N) -> bool {
    !bound.spec_below(N::whole(0)) ==> !bound.spec_below(capital)
}

/// The smallest of several numbers, and at least zero, exceeds none of them.
proof fn least_is_within<N: OrderedNumber>(a: N, b: N, c: N, d: N, e: N)
    requires
        c.spec_at_most(c),
        d.spec_at_most(d),
    ensures
        ({
            let least = a.spec_smaller(b).spec_smaller(c).spec_smaller(d).spec_smaller(e);
            let capital = least.spec_larger(N::whole(0));
            &&& is_kept_within(capital, a)
            &&& is_kept_within(capital, b)
            &&& is_kept_within(capital, c)
            &&& is_kept_within(capital, d)
            &&& is_kept_within(capital, e)
            &&& least.spec_at_most(least)
            &&& !e.spec_below(least)
            &&& capital.spec_at_most(capital)
            &&& capital == N::whole(0) || capital == a || capital == b || capital == c || capital
                == d || capital == e
            &&& !capital.spec_below(N::whole(0))
        }),
{
    let p = a.spec_smaller(b);
    let q = p.spec_smaller(c);
    let r = q.spec_smaller(d);
    let t = r.spec_smaller(e);
    let capital = t.spec_larger(N::whole(0));
    N::smaller_is_least(a, b);
    N::smaller_is_least(p, c);
    N::smaller_is_least(q, d);
    N::smaller_is_least(r, e);
    N::larger_is_greatest(t, N::whole(0));
    N::below_is_defined(a, t);
    N::below_is_defined(b, t);
    if a.spec_at_most(a) {
        N::smaller_keeps_bound(a, p, c);
        N::smaller_keeps_bound(a, q, d);
        N::smaller_keeps_bound(a, r, e);
    }
    if b.spec_at_most(b) {
        N::smaller_keeps_bound(b, p, c);
        N::smaller_keeps_bound(b, q, d);
        N::smaller_keeps_bound(b, r, e);
    }
    N::smaller_keeps_bound(c, q, d);
    N::smaller_keeps_bound(c, r, e);
    N::smaller_keeps_bound(d, r, e);
}

/// The capital that a product gets is at most the active capital, the item's
/// share of it, the configured most per item, the configured most per order and
/// what the market can take: a part of its hourly volume, of its first levels
/// and of what can be captured of its flow. It is never negative, and it is one
/// of these or nothing.
pub proof fn capital_keeps_every_bound<N: OrderedNumber>(
    f: ProductFigures<N>,
    o: FillOutlook<N>,
    active_capital: N,
    config: LocalBazaarScanConfig<N>,
)
    ensures
        ({
            let capital = capital_limit(f, o, active_capital, config);
            let slots = if config.max_items == 0 {
                1u64
            } else {
                config.max_items as u64
            };
            let share = active_capital.spec_times(
                N::whole(1).spec_over(N::whole(slots)).spec_larger(ratio(15, 100)).spec_smaller(
                    clamped(config.buy_sell_balance_limit, ratio(15, 100), ratio(30, 100)),
                ),
            );
            let volume = f.volume_value_hour.spec_times(ratio(35, 100)).spec_times(
                clamped(f.sell_to_buy_flow_ratio, ratio(10, 100), N::whole(1)),
            );
            let depth = f.buy_depth.depth_5_value.spec_smaller(
                f.sell_depth.depth_5_value,
            ).spec_times(ratio(125, 100));
            let flow = o.capturable_units_hour.spec_times(f.buy_price);
            &&& is_kept_within(capital, active_capital)
            &&& is_kept_within(capital, share)
            &&& config.max_capital_per_item > 0 ==> !N::whole(
                config.max_capital_per_item,
            ).spec_below(capital)
            &&& config.max_order_value > 0 ==> !N::whole(config.max_order_value).spec_below(capital)
            &&& config.max_capital_per_item == 0 && config.max_order_value == 0 ==> !N::whole(
                0,
            ).spec_below(capital)
            &&& is_kept_within(capital, volume)
            &&& is_kept_within(capital, depth)
            &&& is_kept_within(capital, flow)
            &&& !capital.spec_below(N::whole(0))
            &&& {
                ||| capital == N::whole(0)
                ||| capital == active_capital
                ||| capital == share
                ||| capital == N::whole(config.max_capital_per_item)
                ||| capital == N::whole(config.max_order_value)
                ||| capital == volume
                ||| capital == depth
                ||| capital == flow
            }
        }),
{
    let capital = capital_limit(f, o, active_capital, config);
    let slots = if config.max_items == 0 {
        1u64
    } else {
        config.max_items as u64
    };
    let share = active_capital.spec_times(
        N::whole(1).spec_over(N::whole(slots)).spec_larger(ratio(15, 100)).spec_smaller(
            clamped(config.buy_sell_balance_limit, ratio(15, 100), ratio(30, 100)),
        ),
    );
    let configured = N::whole(
        if config.max_capital_per_item == 0 {
            config.max_order_value
        } else {
            config.max_capital_per_item
        },
    );
    let order = if config.max_order_value == 0 {
        configured
    } else {
        N::whole(config.max_order_value)
    };
    let volume = f.volume_value_hour.spec_times(ratio(35, 100)).spec_times(
        clamped(f.sell_to_buy_flow_ratio, ratio(10, 100), N::whole(1)),
    );
    let depth = f.buy_depth.depth_5_value.spec_smaller(f.sell_depth.depth_5_value).spec_times(
        ratio(125, 100),
    );
    let flow = o.capturable_units_hour.spec_times(f.buy_price);
    let thinner = volume.spec_smaller(depth);
    let market = thinner.spec_smaller(flow);
    let least = active_capital.spec_smaller(share).spec_smaller(configured).spec_smaller(
        order,
    ).spec_smaller(market);
    N::whole_is_not_negative(0);
    N::whole_is_not_negative(config.max_order_value);
    N::whole_is_not_negative(config.max_capital_per_item);
    least_is_within(active_capital, share, configured, order, market);
    N::smaller_is_least(volume, depth);
    N::smaller_is_least(thinner, flow);
    N::below_is_defined(volume, capital);
    N::below_is_defined(depth, capital);
    N::below_is_defined(flow, capital);
    N::larger_is_greatest(least, N::whole(0));
    if volume.spec_at_most(volume) {
        N::smaller_keeps_bound(volume, thinner, flow);
        N::below_is_cotransitive(volume, market, least);
    }
    if depth.spec_at_most(depth) {
        N::smaller_keeps_bound(depth, thinner, flow);
        N::below_is_cotransitive(depth, market, least);
    }
    if flow.spec_at_most(flow) {
        N::below_is_cotransitive(flow, market, least);
    }
}

/// A flip buys as many units as its capital pays for, at least one and at most
/// the configured number; a configured number of none counts as one.
pub proof fn units_are_what_capital_pays_for<N: Number>(
    capital: N,
    f: ProductFigures<N>,
    config: LocalBazaarScanConfig<N>,
)
    ensures
        ({
            let units = units_for(capital, f, config);
            let paid = capital.spec_over(f.buy_price).spec_whole_part();
            &&& units >= 1
            &&& config.max_amount > 0 ==> units <= config.max_amount
            &&& config.max_amount == 0 ==> units == 1
            &&& 1 <= paid <= config.max_amount ==> units == paid
            &&& paid == 0 ==> units == 1
            &&& paid > config.max_amount > 0 ==> units == config.max_amount
        }),
{
}

/// The outlook of an order. Competition thins its share with the orders around
/// it, liquidity with the hourly value that is short of the preferred one. The
/// chance of a fill weighs liquidity, depth and competition, and what can be
/// captured is the slower side's flow at the rate of participation and that
/// chance. Each factor keeps its range.
pub proof fn outlooks_weigh_market_and_competition<N: OrderedNumber>(
    f: ProductFigures<N>,
    pressure: u64,
    stability: N,
    config: LocalBazaarScanConfig<N>,
)
    ensures
        ({
            let o = outlook_of(f, pressure, stability, config);
            let one = N::whole(1);
            let alone = one.spec_over(one.spec_plus(N::whole(pressure).spec_over(N::whole(400))));
            let traded = f.volume_value_hour.spec_over(
                config.preferred_volume_value_hour.spec_larger(one),
            );
            let depth = clamped(
                f.buy_depth.depth_5_value.spec_smaller(f.sell_depth.depth_5_value).spec_over(
                    N::whole(2000000),
                ),
                ratio(15, 100),
                one,
            );
            let chance = o.liquidity_factor.spec_times(ratio(45, 100)).spec_plus(
                depth.spec_times(ratio(35, 100)),
            ).spec_plus(o.competition_factor.spec_times(ratio(20, 100)));
            &&& !o.competition_factor.spec_below(ratio(25, 100))
            &&& !one.spec_below(o.competition_factor)
            &&& !alone.spec_below(ratio(25, 100)) && !one.spec_below(alone)
                ==> o.competition_factor == alone
            &&& alone.spec_below(ratio(25, 100)) ==> o.competition_factor == ratio::<N>(25, 100)
            &&& !o.liquidity_factor.spec_below(ratio(15, 100))
            &&& !one.spec_below(o.liquidity_factor)
            &&& !traded.spec_below(ratio(15, 100)) && !one.spec_below(traded)
                ==> o.liquidity_factor == traded
            &&& traded.spec_below(ratio(15, 100)) ==> o.liquidity_factor == ratio::<N>(15, 100)
            &&& one.spec_below(traded) && !traded.spec_below(ratio(15, 100))
                ==> o.liquidity_factor == one
            &&& !o.fill_probability_factor.spec_below(ratio(5, 100))
            &&& !one.spec_below(o.fill_probability_factor)
            &&& !chance.spec_below(ratio(5, 100)) && !one.spec_below(chance)
                ==> o.fill_probability_factor == chance
        }),
{
    let one = N::whole(1);
    let o = outlook_of(f, pressure, stability, config);
    fraction_of_one_is_not_above::<N>(25, 100, 1);
    fraction_of_one_is_not_above::<N>(15, 100, 1);
    fraction_of_one_is_not_above::<N>(5, 100, 1);
    clamped_stays_within(
        one.spec_over(one.spec_plus(N::whole(pressure).spec_over(N::whole(400)))),
        ratio(25, 100),
        one,
    );
    clamped_stays_within(
        f.volume_value_hour.spec_over(config.preferred_volume_value_hour.spec_larger(one)),
        ratio(15, 100),
        one,
    );
    let depth = clamped(
        f.buy_depth.depth_5_value.spec_smaller(f.sell_depth.depth_5_value).spec_over(
            N::whole(2000000),
        ),
        ratio(15, 100),
        one,
    );
    clamped_stays_within(
        o.liquidity_factor.spec_times(ratio(45, 100)).spec_plus(
            depth.spec_times(ratio(35, 100)),
        ).spec_plus(o.competition_factor.spec_times(ratio(20, 100))),
        ratio(5, 100),
        one,
    );
}

/// An order takes part in the market at the larger of the two configured rates,
/// between one and thirty percent; where competition is strong or prices are
/// unstable, at no more than the conservative rate, which is at most twenty.
pub proof fn participation_is_cautious<N: OrderedNumber>(
    f: ProductFigures<N>,
    pressure: u64,
    stability: N,
    config: LocalBazaarScanConfig<N>,
)
    ensures
        ({
            let o = outlook_of(f, pressure, stability, config);
            let usual = clamped(
                config.market_participation_rate.spec_larger(
                    config.conservative_market_participation_rate,
                ),
                ratio(1, 100),
                ratio(30, 100),
            );
            let careful = clamped(
                config.conservative_market_participation_rate,
                ratio(1, 100),
                ratio(20, 100),
            );
            let calm = !o.competition_factor.spec_below(ratio(45, 100)) && !stability.spec_below(
                ratio(55, 100),
            );
            let fill = o.fill_probability_factor;
            &&& calm ==> o.capturable_units_hour == f.bottleneck_units_hour.spec_times(
                usual,
            ).spec_times(fill)
            &&& !calm ==> exists|rate: N|
                {
                    &&& !careful.spec_below(rate)
                    &&& !usual.spec_below(rate)
                    &&& rate == usual || rate == careful
                    &&& o.capturable_units_hour == #[trigger] f.bottleneck_units_hour.spec_times(
                        rate,
                    ).spec_times(fill)
                }
        }),
{
    let usual = clamped(
        config.market_participation_rate.spec_larger(config.conservative_market_participation_rate),
        ratio(1, 100),
        ratio(30, 100),
    );
    let careful = clamped(
        config.conservative_market_participation_rate,
        ratio(1, 100),
        ratio(20, 100),
    );
    let o = outlook_of(f, pressure, stability, config);
    let rate = usual.spec_smaller(careful);
    N::smaller_is_least(usual, careful);
    if o.competition_factor.spec_below(ratio(45, 100)) || stability.spec_below(ratio(55, 100)) {
        assert(o.capturable_units_hour == f.bottleneck_units_hour.spec_times(rate).spec_times(
            o.fill_probability_factor,
        ));
    }
}

/// A plan binds the buy price of all its units and earns the profit of each. Its
/// units turn over as often as the flow allows, between once in twenty hours and
/// twelve times an hour; the hourly profit is the margin on the bound capital at
/// that turnover; and the risk, between a twentieth and one, falls with every
/// note.
pub proof fn plans_turn_capital_over<N: OrderedNumber>(
    amount: u64,
    f: ProductFigures<N>,
    o: FillOutlook<N>,
    stability: N,
    spread_reliability: N,
    notes: nat,
)
    ensures
        ({
            let p = plan_of(amount, f, o, stability, spread_reliability, notes);
            let turns = o.capturable_units_hour.spec_over(N::whole(amount));
            let trust = o.liquidity_factor.spec_times(stability).spec_times(
                spread_reliability,
            ).spec_times(o.fill_probability_factor).spec_times(o.competition_factor).spec_minus(
                N::whole(notes as u64).spec_times(ratio(8, 100)),
            );
            &&& p.amount == amount
            &&& p.allocated_capital == f.buy_price.spec_times(N::whole(amount))
            &&& p.total_profit == f.profit_per_unit.spec_times(N::whole(amount))
            &&& !p.estimated_cycles_per_hour.spec_below(ratio(5, 100))
            &&& !N::whole(12).spec_below(p.estimated_cycles_per_hour)
            &&& !turns.spec_below(ratio(5, 100)) && !N::whole(12).spec_below(turns)
                ==> p.estimated_cycles_per_hour == turns
            &&& turns.spec_below(ratio(5, 100)) ==> p.estimated_cycles_per_hour == ratio::<N>(5, 100)
            &&& p.expected_profit_per_hour == p.allocated_capital.spec_times(
                f.margin_percent.spec_over(N::whole(100)),
            ).spec_times(p.estimated_cycles_per_hour)
            &&& !p.risk_multiplier.spec_below(ratio(5, 100))
            &&& !N::whole(1).spec_below(p.risk_multiplier)
            &&& !trust.spec_below(ratio(5, 100)) && !N::whole(1).spec_below(trust)
                ==> p.risk_multiplier == trust
            &&& trust.spec_below(ratio(5, 100)) ==> p.risk_multiplier == ratio::<N>(5, 100)
            &&& p.risk_adjusted == p.expected_profit_per_hour.spec_times(p.risk_multiplier)
        }),
{
    fraction_of_one_is_not_above::<N>(5, 100, 12);
    fraction_of_one_is_not_above::<N>(5, 100, 1);
    clamped_stays_within(
        o.capturable_units_hour.spec_over(N::whole(amount)),
        ratio(5, 100),
        N::whole(12),
    );
    clamped_stays_within(
        o.liquidity_factor.spec_times(stability).spec_times(spread_reliability).spec_times(
            o.fill_probability_factor,
        ).spec_times(o.competition_factor).spec_minus(
            N::whole(notes as u64).spec_times(ratio(8, 100)),
        ),
        ratio(5, 100),
        N::whole(1),
    );
}

/// The hourly profit that is aimed at, at least two million coins, is shared by
/// the items.
pub proof fn items_share_the_target<N: Number>(config: LocalBazaarScanConfig<N>)
    ensures
        config.max_items > 0 ==> item_target(config) == config.target_profit_per_hour.spec_larger(
            N::whole(2000000),
        ).spec_over(N::whole(config.max_items as u64)),
        config.max_items == 0 ==> item_target(config) == config.target_profit_per_hour.spec_larger(
            N::whole(2000000),
        ).spec_over(N::whole(1)),
{
}

/// A product is planned exactly when its capital pays for a unit, the whole flip
/// earns the configured least, and, unless it is a classic flip, its
/// risk-adjusted profit reaches a good part of the item's target and its risk is
/// not extreme. Only extreme risk is taken for manipulation.
pub proof fn planned_products_are_worth_their_capital<N: Number>(
    prospect: Prospect<N>,
    active_capital: N,
    config: LocalBazaarScanConfig<N>,
)
    ensures
        ({
            let p = prospect.plan(active_capital, config);
            let slots = if config.max_items == 0 {
                1u64
            } else {
                config.max_items as u64
            };
            let target = config.target_profit_per_hour.spec_larger(N::whole(2000000)).spec_over(
                N::whole(slots),
            );
            let reason = prospect.plan_reason(active_capital, config);
            let affordable = !prospect.capital(active_capital, config).spec_below(
                prospect.figures.buy_price,
            );
            let earns = !p.total_profit.spec_below(config.min_total_profit);
            let on_target = prospect.classic || !N::whole(0).spec_below(target)
                || !p.risk_adjusted.spec_below(target.spec_times(ratio(15, 100)));
            let extreme = risk_level(
                p.risk_multiplier,
                prospect.notes,
                prospect.figures.volume_value_hour,
            ) is Extreme;
            &&& reason is None <==> affordable && earns && on_target && (prospect.classic
                || !extreme)
            &&& !(affordable && earns && on_target) ==> reason == Some(RejectReason::CapitalLimit)
            &&& affordable && earns && on_target && !prospect.classic && extreme ==> reason == Some(
                RejectReason::ManipulationRisk,
            )
        }),
{
}

/// A prospect is planned with what its capital pays for.
pub proof fn plans_use_their_capital<N: Number>(
    prospect: Prospect<N>,
    active_capital: N,
    config: LocalBazaarScanConfig<N>,
)
    ensures
        ({
            let f = prospect.figures;
            let orders = order_count(
                first_of(prospect.product.buy_summary@, 5),
            ).wrapping_add(
                order_count(
                    first_of(prospect.product.sell_summary@, 5),
                ),
            );
            let o = outlook_of(f, orders, prospect.stability, config);
            let capital = capital_limit(f, o, active_capital, config);
            &&& prospect.outlook(config) == o
            &&& prospect.capital(active_capital, config) == capital
            &&& prospect.plan(active_capital, config) == plan_of(
                units_for(capital, f, config),
                f,
                o,
                prospect.stability,
                prospect.spread_reliability,
                prospect.notes.len(),
            )
        }),
{
}

/// A flip names its product and carries over its prices, its depth and its
/// volumes; its amount, its capital and its profits are those of its plan; and
/// it is ranked by its score.
pub proof fn flips_report_their_plan<N: Number>(
    prospect: Prospect<N>,
    active_capital: N,
    config: LocalBazaarScanConfig<N>,
)
    ensures
        ({
            let flip = prospect.flip(active_capital, config);
            let f = prospect.figures;
            let q = prospect.product.quick_status;
            let p = prospect.plan(active_capital, config);
            let units = N::whole(flip.amount);
            &&& flip.item_tag == prospect.tag
            &&& flip.product_id == prospect.tag
            &&& flip.item_name == product_name(prospect.tag)
            &&& flip.amount == p.amount
            &&& flip.buy_price_per_unit == f.buy_price
            &&& flip.sell_price_per_unit == f.sell_price
            &&& flip.profit_per_unit == f.profit_per_unit
            &&& flip.allocated_capital == f.buy_price.spec_times(units)
            &&& flip.total_profit == f.profit_per_unit.spec_times(units)
            &&& flip.margin_percent == f.margin_percent
            &&& flip.roi_after_tax == f.margin_percent.spec_over(N::whole(100))
            &&& flip.buy_volume == q.buy_volume
            &&& flip.sell_volume == q.sell_volume
            &&& flip.moving_week <= q.buy_moving_week
            &&& flip.moving_week <= q.sell_moving_week
            &&& flip.moving_week == q.buy_moving_week || flip.moving_week == q.sell_moving_week
            &&& flip.best_buy_order == f.best_buy_order
            &&& flip.best_sell_offer == f.best_sell_offer
            &&& flip.target_buy_price == f.buy_price
            &&& flip.target_sell_price == f.sell_price
            &&& flip.spread_before_tax == f.sell_price.spec_minus(f.buy_price)
            &&& flip.spread_after_tax == f.profit_per_unit
            &&& flip.buy_volume_hour == f.buy_volume_hour
            &&& flip.sell_volume_hour == f.sell_volume_hour
            &&& flip.volume_value_hour == f.volume_value_hour
            &&& flip.top_buy_depth_value == f.buy_depth.top_value
            &&& flip.top_sell_depth_value == f.sell_depth.top_value
            &&& flip.avg_buy_depth_value == f.buy_depth.avg_value
            &&& flip.avg_sell_depth_value == f.sell_depth.avg_value
            &&& flip.depth_5_buy_value == f.buy_depth.depth_5_value
            &&& flip.depth_5_sell_value == f.sell_depth.depth_5_value
            &&& flip.estimated_cycles_per_hour == p.estimated_cycles_per_hour
            &&& flip.expected_profit_per_hour == p.expected_profit_per_hour
            &&& flip.estimated_profit_per_hour == p.expected_profit_per_hour
            &&& flip.risk_adjusted_expected_profit_per_hour == flip.score
            &&& flip.risk_notes == prospect.notes
            &&& flip.risk_level == risk_level(
                p.risk_multiplier,
                prospect.notes,
                f.volume_value_hour,
            )
            &&& flip.recommendation == recommendation(
                f.margin_percent,
                f.volume_value_hour,
                flip.risk_level,
                config.target_roi_percent,
                config.preferred_volume_value_hour,
            )
        }),
{
}

/// The score of a flip is its practical score or a quarter of its risk-adjusted
/// profit, and below neither.
pub proof fn scores_count_the_better_figure<N: OrderedNumber>(
    prospect: Prospect<N>,
    active_capital: N,
    config: LocalBazaarScanConfig<N>,
)
    ensures
        ({
            let p = prospect.plan(active_capital, config);
            let score = prospect.flip(active_capital, config).score;
            let practical = plan_metrics(
                prospect.product.quick_status,
                prospect.figures,
                p,
            ).practical().score;
            let quarter = p.risk_adjusted.spec_times(N::whole(25).spec_over(N::whole(100)));
            &&& score == practical || score == quarter
            &&& !score.spec_below(practical)
            &&& !score.spec_below(quarter)
        }),
{
    let p = prospect.plan(active_capital, config);
    let practical = plan_metrics(
        prospect.product.quick_status,
        prospect.figures,
        p,
    ).practical().score;
    N::larger_is_greatest(practical, p.risk_adjusted.spec_times(ratio(25, 100)));
}

/// A planned flip is scored by its profit, the minutes of a cycle, at least one,
/// the volumes of its market and the orders of the side with fewer; nothing is
/// held against it yet.
pub proof fn plans_are_scored_by_their_market<N: Number>(
    q: QuickStatus<N>,
    f: ProductFigures<N>,
    p: FlipPlan<N>,
)
    ensures
        ({
            let m = plan_metrics(q, f, p);
            &&& m.expected_net_profit_after_tax == p.total_profit
            &&& m.expected_cycle_minutes == N::whole(60).spec_over(
                p.estimated_cycles_per_hour.spec_larger(ratio(5, 100)),
            ).spec_larger(N::whole(1))
            &&& m.buy_volume == q.buy_volume
            &&& m.sell_volume == q.sell_volume
            &&& m.moving_week == (if q.buy_moving_week < q.sell_moving_week {
                q.buy_moving_week
            } else {
                q.sell_moving_week
            })
            &&& m.order_count == (if q.buy_orders < q.sell_orders {
                q.buy_orders
            } else {
                q.sell_orders
            })
            &&& m.volume_value_hour == f.volume_value_hour
            &&& m.avg_buy_fill_seconds == N::whole(0)
            &&& m.avg_sell_fill_seconds == N::whole(0)
            &&& m.current_open_buy_capital == N::whole(0)
            &&& m.current_open_sell_value == N::whole(0)
            &&& m.current_cost_lot_value == N::whole(0)
            &&& m.max_cost_lot_age_seconds == 0
            &&& m.successful_flips == 0
            &&& m.failed_flips == 0
            &&& m.reprice_count == 0
            &&& m.cancel_count == 0
            &&& m.failed_search_count == 0
            &&& m.cannot_afford_count == 0
            &&& m.unknown_cost_basis_count == 0
            &&& m.negative_profit_block_count == 0
            &&& m.realized_profit_last_10m == 0
            &&& m.realized_profit_last_30m == 0
        }),
{
}

/// A flip that could have been bought with `capital` under the caps: the capital
/// exceeds neither what is configured per item nor per order and pays for a
/// unit, and the flip binds the price of the units that the capital pays for.
pub open spec fn is_bought_with<N: Number>(
    flip: FlipRecord<N>,
    capital: N,
    config: LocalBazaarScanConfig<N>,
) -> bool {
    let paid = capital.spec_over(flip.buy_price_per_unit).spec_whole_part();
    &&& config.max_capital_per_item > 0 ==> !N::whole(config.max_capital_per_item).spec_below(
        capital,
    )
    &&& config.max_order_value > 0 ==> !N::whole(config.max_order_value).spec_below(capital)
    &&& is_kept_within(capital, active_capital_of(config))
    &&& capital.spec_at_most(capital)
    &&& !capital.spec_below(flip.buy_price_per_unit)
    &&& flip.allocated_capital == flip.buy_price_per_unit.spec_times(N::whole(flip.amount))
    &&& flip.amount >= 1
    &&& config.max_amount > 0 ==> flip.amount <= config.max_amount
    &&& 1 <= paid <= config.max_amount ==> flip.amount == paid
}

/// The flip of a planned prospect is bought with the prospect's capital.
pub proof fn planned_flips_are_bought_with_their_capital<N: OrderedNumber>(
    prospect: Prospect<N>,
    config: LocalBazaarScanConfig<N>,
)
    requires
        prospect.plan_reason(active_capital_of(config), config) is None,
    ensures
        is_bought_with(
            prospect.flip(active_capital_of(config), config),
            prospect.capital(active_capital_of(config), config),
            config,
        ),
{
    let active = active_capital_of(config);
    let f = prospect.figures;
    let o = prospect.outlook(config);
    let capital = prospect.capital(active, config);
    capital_keeps_every_bound(f, o, active, config);
    units_are_what_capital_pays_for(capital, f, config);
    capital_is_defined(f, o, active, config);
}

proof fn capital_is_defined<N: OrderedNumber>(
    f: ProductFigures<N>,
    o: FillOutlook<N>,
    active_capital: N,
    config: LocalBazaarScanConfig<N>,
)
    ensures
        capital_limit(f, o, active_capital, config).spec_at_most(
            capital_limit(f, o, active_capital, config),
        ),
{
    let share = active_capital.spec_times(
        N::whole(1).spec_over(
            N::whole(item_slots(config)),
        ).spec_larger(ratio(15, 100)).spec_smaller(
            clamped(config.buy_sell_balance_limit, ratio(15, 100), ratio(30, 100)),
        ),
    );
    let configured = N::whole(
        if config.max_capital_per_item == 0 {
            config.max_order_value
        } else {
            config.max_capital_per_item
        },
    );
    let order = if config.max_order_value == 0 {
        configured
    } else {
        N::whole(config.max_order_value)
    };
    let market = f.volume_value_hour.spec_times(ratio(35, 100)).spec_times(
        clamped(f.sell_to_buy_flow_ratio, ratio(10, 100), N::whole(1)),
    ).spec_smaller(f.spec_depth_5().spec_times(ratio(125, 100))).spec_smaller(
        o.capturable_units_hour.spec_times(f.buy_price),
    );
    N::whole_is_not_negative(config.max_order_value);
    N::whole_is_not_negative(config.max_capital_per_item);
    least_is_within(active_capital, share, configured, order, market);
}

/// A flip that is bought within its capital binds no more than is configured per
/// item and per order.
pub proof fn flips_within_their_capital_keep_the_caps<N: OrderedNumber>(
    flip: FlipRecord<N>,
    capital: N,
    config: LocalBazaarScanConfig<N>,
)
    requires
        is_bought_with(flip, capital, config),
        !capital.spec_below(flip.allocated_capital),
    ensures
        config.max_capital_per_item > 0 ==> !N::whole(config.max_capital_per_item).spec_below(
            flip.allocated_capital,
        ),
        config.max_order_value > 0 ==> !N::whole(config.max_order_value).spec_below(
            flip.allocated_capital,
        ),
{
    let item = N::whole(config.max_capital_per_item);
    let order = N::whole(config.max_order_value);
    N::whole_is_not_negative(config.max_capital_per_item);
    N::whole_is_not_negative(config.max_order_value);
    N::below_is_defined(item, flip.allocated_capital);
    N::below_is_defined(order, flip.allocated_capital);
    if flip.allocated_capital.spec_at_most(flip.allocated_capital) {
        N::below_is_cotransitive(item, capital, flip.allocated_capital);
        N::below_is_cotransitive(order, capital, flip.allocated_capital);
    }
}

/// Every flip that a scan returns is bought with some capital under the caps.
pub proof fn returned_flips_keep_the_caps<N: OrderedNumber>(
    start: ScanRecord<N>,
    products: Seq<(String, BazaarProduct<N>)>,
    limit: usize,
    config: LocalBazaarScanConfig<N>,
    timestamp: u64,
    i: int,
)
    requires
        start.candidates.len() == 0,
        0 <= i < best_of(
            scan_products(start, products, config, timestamp).candidates,
            limit,
            config,
        ).len(),
    ensures
        ({
            let flip = best_of(
                scan_products(start, products, config, timestamp).candidates,
                limit,
                config,
            )[i];
            exists|capital: N| #[trigger] is_bought_with(flip, capital, config)
        }),
{
    let found = scan_products(start, products, config, timestamp).candidates;
    best_are_candidates(found, limit, config, i);
    let flip = best_of(found, limit, config)[i];
    let j = choose|j: int| 0 <= j < found.len() && found[j] == flip;
    candidates_keep_the_caps(start, products, config, timestamp, j);
}

proof fn candidates_keep_the_caps<N: OrderedNumber>(
    start: ScanRecord<N>,
    products: Seq<(String, BazaarProduct<N>)>,
    config: LocalBazaarScanConfig<N>,
    timestamp: u64,
    i: int,
)
    requires
        start.candidates.len() == 0,
        0 <= i < scan_products(start, products, config, timestamp).candidates.len(),
    ensures
        exists|capital: N| #[trigger]
            is_bought_with(
                scan_products(start, products, config, timestamp).candidates[i],
                capital,
                config,
            ),
    decreases products.len(),
{
    if products.len() > 0 {
        let before = scan_products(start, products.drop_last(), config, timestamp);
        let after = scan_products(start, products, config, timestamp);
        if i < before.candidates.len() {
            candidates_keep_the_caps(start, products.drop_last(), config, timestamp, i);
            assert(after.candidates[i] == before.candidates[i]);
        } else {
            let tag = products.last().0@;
            let product = products.last().1;
            let f = figures_of(product, config);
            let past = recent(before.history, tag, history_cutoff(config, timestamp));
            let rel = reliability(past, f.sell_price, f.spec_spread());
            let prospect = Prospect {
                tag,
                classic: is_classic_flip(tag, config),
                product,
                figures: f,
                stability: rel.stability,
                spread_reliability: rel.spread_reliability,
                notes: all_notes(product, rel.note, config),
            };
            planned_flips_are_bought_with_their_capital(prospect, config);
            let active = active_capital_of(config);
            assert(after.candidates[i] == prospect.flip(active, config));
            assert(is_bought_with(after.candidates[i], prospect.capital(active, config), config));
        }
    }
}

/// A product is noted in the history with its prices, its spreads, its margin,
/// its volumes and its first levels.
pub proof fn products_are_noted_as_they_are<N: Number>(
    tag: Seq<char>,
    f: ProductFigures<N>,
    timestamp: u64,
    score: N,
    risk: Seq<char>,
)
    ensures
        ({
            let m = market_record(tag, f, timestamp, score, risk);
            &&& m.timestamp == timestamp
            &&& m.product_id == tag
            &&& m.best_buy_order == f.best_buy_order
            &&& m.best_sell_offer == f.best_sell_offer
            &&& m.target_buy_price == f.buy_price
            &&& m.target_sell_price == f.sell_price
            &&& m.spread == f.sell_price.spec_minus(f.buy_price)
            &&& m.net_spread == f.profit_per_unit
            &&& m.roi == f.margin_percent.spec_over(N::whole(100))
            &&& m.buy_volume_hour == f.buy_volume_hour
            &&& m.sell_volume_hour == f.sell_volume_hour
            &&& m.top_buy_depth_value == f.buy_depth.top_value
            &&& m.top_sell_depth_value == f.sell_depth.top_value
            &&& m.score == score
            &&& m.risk_level == risk
        }),
{
}

/// Larger caps per item or per order never lessen the capital that a product
/// gets.
pub proof fn larger_caps_never_lessen_capital<N: OrderedNumber>(
    f: ProductFigures<N>,
    o: FillOutlook<N>,
    active_capital: N,
    config: LocalBazaarScanConfig<N>,
    per_item: u64,
    per_order: u64,
)
    requires
        0 < config.max_capital_per_item <= per_item,
        0 < config.max_order_value <= per_order,
    ensures
        capital_limit(f, o, active_capital, config).spec_at_most(
            capital_limit(
                f,
                o,
                active_capital,
                LocalBazaarScanConfig {
                    max_capital_per_item: per_item,
                    max_order_value: per_order,
                    ..config
                },
            ),
        ),
{
    let share = active_capital.spec_times(
        N::whole(1).spec_over(N::whole(item_slots(config))).spec_larger(
            ratio(15, 100),
        ).spec_smaller(
            clamped(config.buy_sell_balance_limit, ratio(15, 100), ratio(30, 100)),
        ),
    );
    let market = f.volume_value_hour.spec_times(ratio(35, 100)).spec_times(
        clamped(f.sell_to_buy_flow_ratio, ratio(10, 100), N::whole(1)),
    ).spec_smaller(f.spec_depth_5().spec_times(ratio(125, 100))).spec_smaller(
        o.capturable_units_hour.spec_times(f.buy_price),
    );
    let own = active_capital.spec_smaller(share);
    let a = N::whole(config.max_capital_per_item);
    let b = N::whole(per_item);
    let c = N::whole(config.max_order_value);
    let d = N::whole(per_order);
    N::whole_keeps_order(config.max_capital_per_item, per_item);
    N::whole_keeps_order(config.max_order_value, per_order);
    N::smaller_keeps_order(a, b, own);
    let low = own.spec_smaller(a);
    let high = own.spec_smaller(b);
    N::smaller_keeps_order(low, high, c);
    N::smaller_keeps_order(c, d, high);
    N::at_most_is_transitive(low.spec_smaller(c), high.spec_smaller(c), high.spec_smaller(d));
    let less = low.spec_smaller(c);
    let more = high.spec_smaller(d);
    N::smaller_keeps_order(less, more, market);
    N::smaller_keeps_order(less.spec_smaller(market), more.spec_smaller(market), N::whole(0));
}

/// More capital never buys fewer units.
pub proof fn more_capital_buys_no_fewer_units<N: OrderedNumber>(
    capital: N,
    more: N,
    f: ProductFigures<N>,
    config: LocalBazaarScanConfig<N>,
)
    requires
        capital.spec_at_most(more),
        capital.spec_is_finite(),
        more.spec_is_finite(),
        f.buy_price.spec_is_finite(),
        N::whole(0).spec_below(f.buy_price),
    ensures
        units_for(capital, f, config) <= units_for(more, f, config),
{
    N::over_keeps_order(capital, more, f.buy_price);
    N::rounded_keeps_order(capital.spec_over(f.buy_price), more.spec_over(f.buy_price));
}

} // verus!
