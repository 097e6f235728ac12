//! What raises and what lowers the practical score of an item.

use vstd::prelude::*;

use crate::bazaar_scanner::scoring::PracticalItemMetrics;
use crate::number::{
    clamped_stays_within, fraction_is_not_above, fraction_of_one_is_not_above, ratio, Number,
    OrderedNumber,
};

verus! {

/// The score is the expected profit, never negative, times six factors, per
/// minute of the cycle, which takes at least one.
pub proof fn scores_multiply_their_factors<N: OrderedNumber>(m: PracticalItemMetrics<N>)
    ensures
        ({
            let b = m.practical();
            let profit = m.expected_net_profit_after_tax.spec_larger(N::whole(0));
            &&& b.score == profit.spec_times(b.sell_through_score).spec_times(
                b.buy_fill_score,
            ).spec_times(b.liquidity_score).spec_times(b.reliability_score).spec_times(
                b.capital_efficiency_score,
            ).spec_times(b.recent_success_score).spec_over(b.expected_cycle_minutes)
            &&& !b.expected_cycle_minutes.spec_below(N::whole(1))
            &&& !b.expected_cycle_minutes.spec_below(m.expected_cycle_minutes)
            &&& b.expected_cycle_minutes == m.expected_cycle_minutes || b.expected_cycle_minutes
                == N::whole(1)
        }),
{
    N::larger_is_greatest(m.expected_cycle_minutes, N::whole(1));
}

/// How fast an item sells, measured by a fill in fifteen minutes; a fill within
/// less than a minute counts as one of a minute.
pub open spec fn sell_speed<N: Number>(m: PracticalItemMetrics<N>) -> N {
    N::whole(900).spec_over(m.avg_sell_fill_seconds.spec_larger(N::whole(60)))
}

/// An item that holds no lots scores by its sell speed, between a tenth and one
/// and a half, or, without fills, with 65 percent. Lots that are held lower
/// it with their value, and lots held for more than half an hour cut what is
/// left to 35 percent.
pub proof fn held_lots_lower_the_sell_through<N: OrderedNumber>(m: PracticalItemMetrics<N>)
    ensures
        ({
            let score = m.practical().sell_through_score;
            let one = N::whole(1);
            let sells = N::whole(0).spec_below(m.avg_sell_fill_seconds);
            let holds = N::whole(0).spec_below(m.current_cost_lot_value);
            let age = if m.max_cost_lot_age_seconds <= 1800 {
                one
            } else {
                N::whole(35).spec_over(N::whole(100))
            };
            let thinned = one.spec_over(
                one.spec_plus(m.current_cost_lot_value.spec_over(N::whole(5000000))),
            );
            let middling = !sell_speed(m).spec_below(ratio(10, 100)) && !ratio::<N>(
                150,
                100,
            ).spec_below(sell_speed(m));
            let unclamped = !thinned.spec_below(ratio(15, 100)) && !one.spec_below(thinned);
            &&& !sells && !holds ==> score == N::whole(65).spec_over(N::whole(100)).spec_times(
                one,
            ).spec_times(age)
            &&& sells && middling && !holds ==> score == sell_speed(m).spec_times(one).spec_times(
                age,
            )
            &&& sells && sell_speed(m).spec_below(ratio(10, 100)) && !holds ==> score == N::whole(
                10,
            ).spec_over(N::whole(100)).spec_times(one).spec_times(age)
            &&& sells && ratio::<N>(150, 100).spec_below(sell_speed(m)) && !sell_speed(
                m,
            ).spec_below(ratio(10, 100)) && !holds ==> score == N::whole(150).spec_over(
                N::whole(100),
            ).spec_times(one).spec_times(age)
            &&& !sells && holds && unclamped ==> score == N::whole(65).spec_over(
                N::whole(100),
            ).spec_times(thinned).spec_times(age)
            &&& sells && middling && holds && unclamped ==> score == sell_speed(m).spec_times(
                thinned,
            ).spec_times(age)
            &&& !sells && holds && thinned.spec_below(ratio(15, 100)) ==> score == N::whole(
                65,
            ).spec_over(N::whole(100)).spec_times(N::whole(15).spec_over(N::whole(100))).spec_times(
                age,
            )
        }),
{
    let one = N::whole(1);
    fraction_is_not_above::<N>(10, 100, 150, 100);
    fraction_of_one_is_not_above::<N>(15, 100, 1);
    clamped_stays_within(sell_speed(m), ratio(10, 100), ratio(150, 100));
    clamped_stays_within(
        one.spec_over(one.spec_plus(m.current_cost_lot_value.spec_over(N::whole(5000000)))),
        ratio(15, 100),
        one,
    );
}

/// How fast an item is bought: ten minutes a fill is the measure, within limits;
/// without fills it counts as 75 percent. Every six new prices or cancels count
/// as much against it as one whole.
pub proof fn churn_lowers_the_buy_fill<N: OrderedNumber>(m: PracticalItemMetrics<N>)
    ensures
        ({
            let score = m.practical().buy_fill_score;
            let one = N::whole(1);
            let fills = N::whole(0).spec_below(m.avg_buy_fill_seconds);
            let speed = N::whole(600).spec_over(m.avg_buy_fill_seconds.spec_larger(N::whole(30)));
            let steadiness = one.spec_over(
                one.spec_plus(
                    N::whole(m.reprice_count.wrapping_add(m.cancel_count)).spec_over(N::whole(6)),
                ),
            );
            &&& !fills ==> score == N::whole(75).spec_over(N::whole(100)).spec_times(steadiness)
            &&& fills && !speed.spec_below(ratio(20, 100)) && !ratio::<N>(130, 100).spec_below(speed)
                ==> score == speed.spec_times(steadiness)
            &&& fills && speed.spec_below(ratio(20, 100)) ==> score == ratio::<N>(
                20,
                100,
            ).spec_times(steadiness)
            &&& fills && ratio::<N>(130, 100).spec_below(speed) && !speed.spec_below(ratio(20, 100))
                ==> score == ratio::<N>(130, 100).spec_times(steadiness)
        }),
{
    fraction_is_not_above::<N>(20, 100, 130, 100);
    clamped_stays_within(
        N::whole(600).spec_over(m.avg_buy_fill_seconds.spec_larger(N::whole(30))),
        ratio(20, 100),
        ratio(130, 100),
    );
}

/// Liquidity weighs the volume of the side with less, the week's units, the
/// orders and the hourly value, each under a root, between 5 and 135 percent.
pub proof fn liquidity_weighs_four_figures<N: OrderedNumber>(m: PracticalItemMetrics<N>)
    ensures
        ({
            let score = m.practical().liquidity_score;
            let volume = N::whole(
                if m.buy_volume < m.sell_volume {
                    m.buy_volume
                } else {
                    m.sell_volume
                },
            ).spec_over(N::whole(25000)).spec_root();
            let week = N::whole(m.moving_week).spec_over(N::whole(1000000)).spec_root();
            let orders = N::whole(m.order_count).spec_over(N::whole(40)).spec_root();
            let value = m.volume_value_hour.spec_over(N::whole(50000000)).spec_root();
            let all = volume.spec_times(week).spec_times(orders).spec_times(value);
            &&& !score.spec_below(ratio(5, 100))
            &&& !ratio::<N>(135, 100).spec_below(score)
            &&& !all.spec_below(ratio(5, 100)) && !ratio::<N>(135, 100).spec_below(all) ==> score
                == all
            &&& all.spec_below(ratio(5, 100)) ==> score == ratio::<N>(5, 100)
        }),
{
    let volume = N::whole(
        if m.buy_volume < m.sell_volume {
            m.buy_volume
        } else {
            m.sell_volume
        },
    ).spec_over(N::whole(25000)).spec_root();
    let week = N::whole(m.moving_week).spec_over(N::whole(1000000)).spec_root();
    let orders = N::whole(m.order_count).spec_over(N::whole(40)).spec_root();
    let value = m.volume_value_hour.spec_over(N::whole(50000000)).spec_root();
    fraction_is_not_above::<N>(5, 100, 135, 100);
    clamped_stays_within(
        volume.spec_times(week).spec_times(orders).spec_times(value),
        ratio(5, 100),
        ratio(135, 100),
    );
}

/// Reliability is the share of successes among all attempts, one success
/// granted, between 5 and 120 percent. Failed flips, failed searches, orders
/// that could not be paid, unknown costs, refused losses and cancels all count
/// as failures.
pub proof fn every_kind_of_failure_counts<N: OrderedNumber>(m: PracticalItemMetrics<N>)
    requires
        m.successful_flips + m.failed_flips + m.failed_search_count + m.cannot_afford_count
            + m.unknown_cost_basis_count + m.negative_profit_block_count + m.cancel_count
            < u64::MAX,
    ensures
        ({
            let score = m.practical().reliability_score;
            let failures = m.failed_flips + m.failed_search_count + m.cannot_afford_count
                + m.unknown_cost_basis_count + m.negative_profit_block_count + m.cancel_count;
            let share = N::whole((m.successful_flips + 1) as u64).spec_over(
                N::whole((m.successful_flips + failures + 1) as u64),
            );
            &&& !score.spec_below(ratio(5, 100))
            &&& !ratio::<N>(120, 100).spec_below(score)
            &&& !share.spec_below(ratio(5, 100)) && !ratio::<N>(120, 100).spec_below(share)
                ==> score == share
            &&& share.spec_below(ratio(5, 100)) ==> score == ratio::<N>(5, 100)
        }),
{
    let failures = m.failed_flips + m.failed_search_count + m.cannot_afford_count
        + m.unknown_cost_basis_count + m.negative_profit_block_count + m.cancel_count;
    fraction_is_not_above::<N>(5, 100, 120, 100);
    clamped_stays_within(
        N::whole((m.successful_flips + 1) as u64).spec_over(
            N::whole((m.successful_flips + failures + 1) as u64),
        ),
        ratio(5, 100),
        ratio(120, 100),
    );
}

/// Efficiency is ten times the profit per coin that is bound, in open buys, open
/// sells and held lots together and at least in the profit and in one coin,
/// between 5 and 125 percent.
pub proof fn efficiency_is_profit_per_bound_coin<N: OrderedNumber>(m: PracticalItemMetrics<N>)
    ensures
        ({
            let score = m.practical().capital_efficiency_score;
            let profit = m.expected_net_profit_after_tax;
            let bound = m.current_open_buy_capital.spec_plus(m.current_open_sell_value).spec_plus(
                m.current_cost_lot_value,
            ).spec_larger(profit.spec_larger(N::whole(1)));
            let per_coin = profit.spec_over(bound).spec_times(N::whole(10));
            &&& !score.spec_below(ratio(5, 100))
            &&& !ratio::<N>(125, 100).spec_below(score)
            &&& !per_coin.spec_below(ratio(5, 100)) && !ratio::<N>(125, 100).spec_below(per_coin)
                ==> score == per_coin
            &&& per_coin.spec_below(ratio(5, 100)) ==> score == ratio::<N>(5, 100)
            &&& ratio::<N>(125, 100).spec_below(per_coin) && !per_coin.spec_below(ratio(5, 100))
                ==> score == ratio::<N>(125, 100)
        }),
{
    let profit = m.expected_net_profit_after_tax;
    let bound = m.current_open_buy_capital.spec_plus(m.current_open_sell_value).spec_plus(
        m.current_cost_lot_value,
    ).spec_larger(profit.spec_larger(N::whole(1)));
    fraction_is_not_above::<N>(5, 100, 125, 100);
    clamped_stays_within(
        profit.spec_over(bound).spec_times(N::whole(10)),
        ratio(5, 100),
        ratio(125, 100),
    );
}

/// Profit within ten minutes counts more than profit within thirty, and that
/// more than none; lots of an item that never succeeded count against it.
pub proof fn recent_profit_counts_most<N: Number>(m: PracticalItemMetrics<N>)
    ensures
        ({
            let score = m.practical().recent_success_score;
            let stuck = N::whole(0).spec_below(m.current_cost_lot_value) && m.successful_flips == 0;
            &&& m.realized_profit_last_10m > 0 ==> score == N::whole(135).spec_over(N::whole(100))
            &&& m.realized_profit_last_10m <= 0 && m.realized_profit_last_30m > 0 ==> score
                == N::whole(115).spec_over(N::whole(100))
            &&& m.realized_profit_last_10m <= 0 && m.realized_profit_last_30m <= 0 && stuck ==> score
                == N::whole(35).spec_over(N::whole(100))
            &&& m.realized_profit_last_10m <= 0 && m.realized_profit_last_30m <= 0 && !stuck
                ==> score == N::whole(85).spec_over(N::whole(100))
        }),
{
}

} // verus!
