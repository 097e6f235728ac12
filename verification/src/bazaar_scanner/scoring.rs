//! The practical score of an item: how fast it turns into realized profit.

use vstd::prelude::*;

use crate::bazaar_tracker::lots::smaller_of;
use crate::number::{clamp, clamped, fraction, ratio, Number};

verus! {

/// What the practical score of an item is computed from.
#[derive(Debug, Clone)]
pub struct PracticalItemMetrics<N> {
    pub expected_net_profit_after_tax: N,
    pub expected_cycle_minutes: N,
    pub buy_volume: u64,
    pub sell_volume: u64,
    pub moving_week: u64,
    pub order_count: u64,
    pub volume_value_hour: N,
    pub avg_buy_fill_seconds: N,
    pub avg_sell_fill_seconds: N,
    pub current_open_buy_capital: N,
    pub current_open_sell_value: N,
    pub current_cost_lot_value: N,
    pub max_cost_lot_age_seconds: u64,
    pub successful_flips: u64,
    pub failed_flips: u64,
    pub reprice_count: u64,
    pub cancel_count: u64,
    pub failed_search_count: u64,
    pub cannot_afford_count: u64,
    pub unknown_cost_basis_count: u64,
    pub negative_profit_block_count: u64,
    pub realized_profit_last_10m: i64,
    pub realized_profit_last_30m: i64,
}

/// The metrics of an item of which nothing is known.
pub open spec fn blank_metrics<N: Number>() -> PracticalItemMetrics<N> {
    PracticalItemMetrics {
        expected_net_profit_after_tax: N::whole(0),
        expected_cycle_minutes: N::whole(0),
        buy_volume: 0,
        sell_volume: 0,
        moving_week: 0,
        order_count: 0,
        volume_value_hour: N::whole(0),
        avg_buy_fill_seconds: N::whole(0),
        avg_sell_fill_seconds: N::whole(0),
        current_open_buy_capital: N::whole(0),
        current_open_sell_value: N::whole(0),
        current_cost_lot_value: N::whole(0),
        max_cost_lot_age_seconds: 0,
        successful_flips: 0,
        failed_flips: 0,
        reprice_count: 0,
        cancel_count: 0,
        failed_search_count: 0,
        cannot_afford_count: 0,
        unknown_cost_basis_count: 0,
        negative_profit_block_count: 0,
        realized_profit_last_10m: 0,
        realized_profit_last_30m: 0,
    }
}

impl<N: Number> Default for PracticalItemMetrics<N> {
    fn default() -> (r: Self)
        ensures
            r == blank_metrics::<N>(),
    {
        PracticalItemMetrics {
            expected_net_profit_after_tax: N::from_u64(0),
            expected_cycle_minutes: N::from_u64(0),
            buy_volume: 0,
            sell_volume: 0,
            moving_week: 0,
            order_count: 0,
            volume_value_hour: N::from_u64(0),
            avg_buy_fill_seconds: N::from_u64(0),
            avg_sell_fill_seconds: N::from_u64(0),
            current_open_buy_capital: N::from_u64(0),
            current_open_sell_value: N::from_u64(0),
            current_cost_lot_value: N::from_u64(0),
            max_cost_lot_age_seconds: 0,
            successful_flips: 0,
            failed_flips: 0,
            reprice_count: 0,
            cancel_count: 0,
            failed_search_count: 0,
            cannot_afford_count: 0,
            unknown_cost_basis_count: 0,
            negative_profit_block_count: 0,
            realized_profit_last_10m: 0,
            realized_profit_last_30m: 0,
        }
    }
}

/// The practical score and the factors it is made of.
#[derive(Debug, Clone, Copy, PartialEq)]
pub struct PracticalScoreBreakdown<N> {
    pub score: N,
    pub sell_through_score: N,
    pub buy_fill_score: N,
    pub liquidity_score: N,
    pub reliability_score: N,
    pub capital_efficiency_score: N,
    pub recent_success_score: N,
    pub expected_cycle_minutes: N,
}

impl<N: Number> PracticalItemMetrics<N> {
    /// Fast sells count up to half as much again, slow sells down to a tenth.
    /// Held lots lower the score, lots held for over half an hour further.
    pub open spec fn sell_through_score(self) -> N {
        let zero = N::whole(0);
        let speed = if zero.spec_below(self.avg_sell_fill_seconds) {
            clamped(
                N::whole(900).spec_over(self.avg_sell_fill_seconds.spec_larger(N::whole(60))),
                ratio(10, 100),
                ratio(150, 100),
            )
        } else {
            ratio(65, 100)
        };
        let held = if zero.spec_below(self.current_cost_lot_value) {
            clamped(
                N::whole(1).spec_over(
                    N::whole(1).spec_plus(self.current_cost_lot_value.spec_over(N::whole(5000000))),
                ),
                ratio(15, 100),
                N::whole(1),
            )
        } else {
            N::whole(1)
        };
        let age = if self.max_cost_lot_age_seconds > 1800 {
            ratio(35, 100)
        } else {
            N::whole(1)
        };
        speed.spec_times(held).spec_times(age)
    }

    /// Fast fills count more; repricing and cancelling count against.
    pub open spec fn buy_fill_score(self) -> N {
        let speed = if N::whole(0).spec_below(self.avg_buy_fill_seconds) {
            clamped(
                N::whole(600).spec_over(self.avg_buy_fill_seconds.spec_larger(N::whole(30))),
                ratio(20, 100),
                ratio(130, 100),
            )
        } else {
            ratio(75, 100)
        };
        let churn = N::whole(self.reprice_count.wrapping_add(self.cancel_count)).spec_over(
            N::whole(6),
        );
        speed.spec_times(N::whole(1).spec_over(N::whole(1).spec_plus(churn)))
    }

    /// Volume, turnover, order count and hourly value, each under a root.
    pub open spec fn liquidity_score(self) -> N {
        let volume = N::whole(smaller_of(self.buy_volume, self.sell_volume)).spec_over(
            N::whole(25000),
        );
        let week = N::whole(self.moving_week).spec_over(N::whole(1000000));
        let orders = N::whole(self.order_count).spec_over(N::whole(40));
        let value = self.volume_value_hour.spec_over(N::whole(50000000));
        clamped(
            volume.spec_root().spec_times(week.spec_root()).spec_times(
                orders.spec_root(),
            ).spec_times(value.spec_root()),
            ratio(5, 100),
            ratio(135, 100),
        )
    }

    /// How often anything about the item went wrong.
    pub open spec fn failures(self) -> u64 {
        self.failed_flips.wrapping_add(self.failed_search_count).wrapping_add(
            self.cannot_afford_count,
        ).wrapping_add(self.unknown_cost_basis_count).wrapping_add(
            self.negative_profit_block_count,
        ).wrapping_add(self.cancel_count)
    }

    /// The share of successes among all attempts, one success granted.
    pub open spec fn reliability_score(self) -> N {
        clamped(
            N::whole(self.successful_flips.wrapping_add(1)).spec_over(
                N::whole(self.successful_flips.wrapping_add(self.failures()).wrapping_add(1)),
            ),
            ratio(5, 100),
            ratio(120, 100),
        )
    }

    /// Ten times the profit per coin that the item binds.
    pub open spec fn capital_efficiency_score(self) -> N {
        let profit = self.expected_net_profit_after_tax;
        let bound = self.current_open_buy_capital.spec_plus(
            self.current_open_sell_value,
        ).spec_plus(self.current_cost_lot_value).spec_larger(profit.spec_larger(N::whole(1)));
        clamped(
            profit.spec_over(bound).spec_times(N::whole(10)),
            ratio(5, 100),
            ratio(125, 100),
        )
    }

    /// Profit of the last minutes counts for the item, lots that never led to a
    /// success count against it.
    pub open spec fn recent_success_score(self) -> N {
        if self.realized_profit_last_10m > 0 {
            ratio(135, 100)
        } else if self.realized_profit_last_30m > 0 {
            ratio(115, 100)
        } else if N::whole(0).spec_below(self.current_cost_lot_value) && self.successful_flips
            == 0 {
            ratio(35, 100)
        } else {
            ratio(85, 100)
        }
    }

    /// The expected cycle, at least one minute.
    pub open spec fn cycle(self) -> N {
        self.expected_cycle_minutes.spec_larger(N::whole(1))
    }

    /// The profit times all factors, per minute of the cycle.
    pub open spec fn practical(self) -> PracticalScoreBreakdown<N> {
        PracticalScoreBreakdown {
            score: self.expected_net_profit_after_tax.spec_larger(N::whole(0)).spec_times(
                self.sell_through_score(),
            ).spec_times(self.buy_fill_score()).spec_times(self.liquidity_score()).spec_times(
                self.reliability_score(),
            ).spec_times(self.capital_efficiency_score()).spec_times(
                self.recent_success_score(),
            ).spec_over(self.cycle()),
            sell_through_score: self.sell_through_score(),
            buy_fill_score: self.buy_fill_score(),
            liquidity_score: self.liquidity_score(),
            reliability_score: self.reliability_score(),
            capital_efficiency_score: self.capital_efficiency_score(),
            recent_success_score: self.recent_success_score(),
            expected_cycle_minutes: self.cycle(),
        }
    }
}

/// The practical score of an item.
pub fn practical_score<N: Number>(metrics: &PracticalItemMetrics<N>) -> (r: PracticalScoreBreakdown<N>)
    ensures
        r == metrics.practical(),
{
    let zero = N::from_u64(0);
    let one = N::from_u64(1);
    let cycle = metrics.expected_cycle_minutes.larger(one);

    let sell_speed = if zero.below(metrics.avg_sell_fill_seconds) {
        clamp(
            N::from_u64(900).over(metrics.avg_sell_fill_seconds.larger(N::from_u64(60))),
            fraction(10, 100),
            fraction(150, 100),
        )
    } else {
        fraction(65, 100)
    };
    let held = if zero.below(metrics.current_cost_lot_value) {
        clamp(
            one.over(one.plus(metrics.current_cost_lot_value.over(N::from_u64(5000000)))),
            fraction(15, 100),
            one,
        )
    } else {
        one
    };
    let age = if metrics.max_cost_lot_age_seconds > 1800 {
        fraction(35, 100)
    } else {
        one
    };
    let sell_through_score = sell_speed.times(held).times(age);

    let buy_speed = if zero.below(metrics.avg_buy_fill_seconds) {
        clamp(
            N::from_u64(600).over(metrics.avg_buy_fill_seconds.larger(N::from_u64(30))),
            fraction(20, 100),
            fraction(130, 100),
        )
    } else {
        fraction(75, 100)
    };
    let churn = N::from_u64(metrics.reprice_count.wrapping_add(metrics.cancel_count)).over(
        N::from_u64(6),
    );
    let buy_fill_score = buy_speed.times(one.over(one.plus(churn)));

    let volume = if metrics.buy_volume <= metrics.sell_volume {
        metrics.buy_volume
    } else {
        metrics.sell_volume
    };
    let volume_units = N::from_u64(volume).over(N::from_u64(25000));
    let liquidity_score = clamp(
        volume_units.root().times(
            N::from_u64(metrics.moving_week).over(N::from_u64(1000000)).root(),
        ).times(N::from_u64(metrics.order_count).over(N::from_u64(40)).root()).times(
            metrics.volume_value_hour.over(N::from_u64(50000000)).root(),
        ),
        fraction(5, 100),
        fraction(135, 100),
    );

    let failures = metrics.failed_flips.wrapping_add(metrics.failed_search_count).wrapping_add(
        metrics.cannot_afford_count,
    ).wrapping_add(metrics.unknown_cost_basis_count).wrapping_add(
        metrics.negative_profit_block_count,
    ).wrapping_add(metrics.cancel_count);
    let reliability_score = clamp(
        N::from_u64(metrics.successful_flips.wrapping_add(1)).over(
            N::from_u64(metrics.successful_flips.wrapping_add(failures).wrapping_add(1)),
        ),
        fraction(5, 100),
        fraction(120, 100),
    );

    let bound_capital = metrics.current_open_buy_capital.plus(metrics.current_open_sell_value).plus(
        metrics.current_cost_lot_value,
    ).larger(metrics.expected_net_profit_after_tax.larger(one));
    let capital_efficiency_score = clamp(
        metrics.expected_net_profit_after_tax.over(bound_capital).times(N::from_u64(10)),
        fraction(5, 100),
        fraction(125, 100),
    );

    let recent_success_score = if metrics.realized_profit_last_10m > 0 {
        fraction(135, 100)
    } else if metrics.realized_profit_last_30m > 0 {
        fraction(115, 100)
    } else if zero.below(metrics.current_cost_lot_value) && metrics.successful_flips == 0 {
        fraction(35, 100)
    } else {
        fraction(85, 100)
    };

    let score = metrics.expected_net_profit_after_tax.larger(zero).times(
        sell_through_score,
    ).times(buy_fill_score).times(liquidity_score).times(reliability_score).times(
        capital_efficiency_score,
    ).times(recent_success_score).over(cycle);

    PracticalScoreBreakdown {
        score,
        sell_through_score,
        buy_fill_score,
        liquidity_score,
        reliability_score,
        capital_efficiency_score,
        recent_success_score,
        expected_cycle_minutes: cycle,
    }
}

} // verus!
