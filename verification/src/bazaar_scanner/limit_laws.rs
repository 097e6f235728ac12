//! What the position limits and the repricing rules decide, in terms of what
//! they are given.

use vstd::prelude::*;
use vstd::string::*;

use crate::bazaar_scanner::config::LocalBazaarScanConfig;
use crate::bazaar_scanner::limits::{
    capital_share, is_positive, position_limit, reprice_block, reprice_throttle, sell_reprice_block,
};
use crate::number::{
    clamped, clamped_stays_within, fraction_of_one_is_not_above, ratio, Number, OrderedNumber,
};

verus! {

/// A share between a twentieth and one is taken of the capital as it is; a
/// smaller one counts as a twentieth and a larger one as all of it.
pub proof fn shares_are_kept_sensible<N: OrderedNumber>(capital: N, share: N)
    ensures
        !share.spec_below(N::whole(5).spec_over(N::whole(100))) && !N::whole(1).spec_below(share)
            ==> capital_share(capital, share) == capital.spec_times(share),
        share.spec_below(N::whole(5).spec_over(N::whole(100))) ==> capital_share(capital, share)
            == capital.spec_times(N::whole(5).spec_over(N::whole(100))),
        N::whole(1).spec_below(share) && !share.spec_below(N::whole(5).spec_over(N::whole(100)))
            ==> capital_share(capital, share) == capital.spec_times(N::whole(1)),
{
    fraction_of_one_is_not_above::<N>(5, 100, 1);
    clamped_stays_within(share, ratio(5, 100), N::whole(1));
}

/// A number is positive when it is finite and not at most zero.
pub proof fn positive_numbers_exceed_zero<N: Number>(x: N)
    ensures
        is_positive(x) ==> x.spec_is_finite() && !x.spec_at_most(N::whole(0)),
        x.spec_is_finite() && !x.spec_at_most(N::whole(0)) ==> is_positive(x),
{
}

/// A position is taken exactly when the lots, the open buys and all open
/// positions together stay within their shares of the capital, the item stays
/// below its cap, and no lot of it is held or offered. The cap is the exposure
/// cap or, without one, the most that is put into one item.
pub proof fn positions_stay_within_limits<N: Number>(
    item_open_buy_capital: N,
    item_cost_lot_value: N,
    item_open_sell_value: N,
    total_open_buy_capital: N,
    total_cost_lot_value: N,
    total_open_sell_value: N,
    config: LocalBazaarScanConfig<N>,
)
    requires
        config.total_capital > 0,
    ensures
        ({
            let taken = position_limit(
                item_open_buy_capital,
                item_cost_lot_value,
                item_open_sell_value,
                total_open_buy_capital,
                total_cost_lot_value,
                total_open_sell_value,
                config,
            ) is None;
            let capital = N::whole(config.total_capital);
            let least = N::whole(5).spec_over(N::whole(100));
            let all = N::whole(1);
            let in_item = item_open_buy_capital.spec_plus(item_cost_lot_value).spec_plus(
                item_open_sell_value,
            );
            let in_all = total_open_buy_capital.spec_plus(total_cost_lot_value).spec_plus(
                total_open_sell_value,
            );
            taken <==> {
                &&& !capital.spec_times(
                    clamped(config.max_cost_lot_capital_ratio, least, all),
                ).spec_below(total_cost_lot_value)
                &&& !capital.spec_times(
                    clamped(config.max_open_buy_capital_ratio, least, all),
                ).spec_below(total_open_buy_capital)
                &&& !capital.spec_times(
                    clamped(config.active_capital_ratio, least, all),
                ).spec_below(in_all)
                &&& config.per_item_exposure_cap > 0 ==> !N::whole(
                    config.per_item_exposure_cap,
                ).spec_at_most(in_item)
                &&& config.per_item_exposure_cap == 0 ==> !N::whole(
                    config.max_capital_per_item,
                ).spec_at_most(in_item)
                &&& !N::whole(0).spec_below(item_cost_lot_value)
                &&& !N::whole(0).spec_below(item_open_sell_value)
            }
        }),
{
}

/// Without any capital the limits are those of a single coin.
pub proof fn no_capital_counts_as_one_coin<N: Number>(
    item_open_buy_capital: N,
    item_cost_lot_value: N,
    item_open_sell_value: N,
    total_open_buy_capital: N,
    total_cost_lot_value: N,
    total_open_sell_value: N,
    config: LocalBazaarScanConfig<N>,
)
    requires
        config.total_capital == 0,
    ensures
        position_limit(
            item_open_buy_capital,
            item_cost_lot_value,
            item_open_sell_value,
            total_open_buy_capital,
            total_cost_lot_value,
            total_open_sell_value,
            config,
        ) == position_limit(
            item_open_buy_capital,
            item_cost_lot_value,
            item_open_sell_value,
            total_open_buy_capital,
            total_cost_lot_value,
            total_open_sell_value,
            LocalBazaarScanConfig { total_capital: 1, ..config },
        ),
{
}

/// Why a position is refused: lots that bind too much come before buys that
/// do, these before any position that is too large, and that before lots that
/// are held or offered already.
pub proof fn refused_positions_say_why<N: Number>(
    item_open_buy_capital: N,
    item_cost_lot_value: N,
    item_open_sell_value: N,
    total_open_buy_capital: N,
    total_cost_lot_value: N,
    total_open_sell_value: N,
    config: LocalBazaarScanConfig<N>,
)
    requires
        config.total_capital > 0,
    ensures
        ({
            let reason = position_limit(
                item_open_buy_capital,
                item_cost_lot_value,
                item_open_sell_value,
                total_open_buy_capital,
                total_cost_lot_value,
                total_open_sell_value,
                config,
            );
            let capital = N::whole(config.total_capital);
            let least = N::whole(5).spec_over(N::whole(100));
            let all = N::whole(1);
            let lots_exceed = capital.spec_times(
                clamped(config.max_cost_lot_capital_ratio, least, all),
            ).spec_below(total_cost_lot_value);
            let buys_exceed = capital.spec_times(
                clamped(config.max_open_buy_capital_ratio, least, all),
            ).spec_below(total_open_buy_capital);
            &&& lots_exceed <==> reason == Some("TOO_MUCH_OPEN_COST_BASIS"@)
            &&& buys_exceed && !lots_exceed <==> reason == Some("TOO_MUCH_OPEN_CAPITAL"@)
            &&& reason is Some && !lots_exceed && !buys_exceed ==> reason == Some(
                "POSITION_LIMIT"@,
            ) || reason == Some("COST_LOTS_ALREADY_OPEN"@)
            &&& reason == Some("COST_LOTS_ALREADY_OPEN"@) ==> N::whole(0).spec_below(
                item_cost_lot_value,
            ) || N::whole(0).spec_below(item_open_sell_value)
            &&& reason == Some("POSITION_LIMIT"@) ==> capital.spec_times(
                clamped(config.active_capital_ratio, least, all),
            ).spec_below(
                total_open_buy_capital.spec_plus(total_cost_lot_value).spec_plus(
                    total_open_sell_value,
                ),
            ) || N::whole(
                if config.per_item_exposure_cap == 0 {
                    config.max_capital_per_item
                } else {
                    config.per_item_exposure_cap
                },
            ).spec_at_most(
                item_open_buy_capital.spec_plus(item_cost_lot_value).spec_plus(
                    item_open_sell_value,
                ),
            )
        }),
{
    reveal_strlit("TOO_MUCH_OPEN_COST_BASIS");
    reveal_strlit("TOO_MUCH_OPEN_CAPITAL");
    reveal_strlit("POSITION_LIMIT");
    reveal_strlit("COST_LOTS_ALREADY_OPEN");
    assert("TOO_MUCH_OPEN_COST_BASIS"@.len() == 24);
    assert("TOO_MUCH_OPEN_CAPITAL"@.len() == 21);
    assert("POSITION_LIMIT"@.len() == 14);
    assert("COST_LOTS_ALREADY_OPEN"@.len() == 22);
}

/// An order is held back exactly when it is too young, was repriced too
/// recently, or was repriced too often within the hour, in this order. An order
/// that was never repriced is not too recent.
pub proof fn orders_are_held_back<N: Number>(
    age: u64,
    since_last: Option<u64>,
    this_hour: u64,
    config: LocalBazaarScanConfig<N>,
)
    ensures
        ({
            let held = reprice_throttle(age, since_last, this_hour, config);
            let young = age < config.min_reprice_interval_seconds;
            let recent = match since_last {
                Some(seconds) => seconds < config.reprice_cooldown_seconds,
                None => false,
            };
            let often = this_hour >= config.max_reprices_per_item_per_hour;
            &&& young ==> held == Some("ORDER_TOO_YOUNG"@)
            &&& !young && recent ==> held == Some("REPRICE_COOLDOWN"@)
            &&& !young && !recent && often ==> held == Some("TOO_MANY_REPRICES"@)
            &&& !young && !recent && !often ==> held is None
        }),
{
}

/// Time only helps: an order that may be repriced may also be repriced when it
/// is older, when its last new price is longer ago, and when it has had fewer
/// new prices within the hour.
pub proof fn patience_is_never_punished<N: Number>(
    age: u64,
    since_last: Option<u64>,
    this_hour: u64,
    later_age: u64,
    later_since: Option<u64>,
    later_hour: u64,
    config: LocalBazaarScanConfig<N>,
)
    requires
        reprice_throttle(age, since_last, this_hour, config) is None,
        later_age >= age,
        later_since is None || (since_last is Some && later_since->0 >= since_last->0),
        later_hour <= this_hour,
    ensures
        reprice_throttle(later_age, later_since, later_hour, config) is None,
{
}

/// A sell order that is too young, was repriced too recently or too often keeps
/// its price, whatever a new price would gain.
pub proof fn repricing_sells_is_throttled<N: Number>(
    age: u64,
    since_last: Option<u64>,
    this_hour: u64,
    current: N,
    fresh: N,
    cost: N,
    amount: u64,
    config: LocalBazaarScanConfig<N>,
)
    requires
        age < config.min_reprice_interval_seconds || (since_last is Some && since_last->0
            < config.reprice_cooldown_seconds) || this_hour
            >= config.max_reprices_per_item_per_hour,
    ensures
        sell_reprice_block(age, since_last, this_hour, current, fresh, cost, amount, config)
            == reprice_throttle(age, since_last, this_hour, config),
        sell_reprice_block(
            age,
            since_last,
            this_hour,
            current,
            fresh,
            cost,
            amount,
            config,
        ) is Some,
{
}

/// A sell order that is not held back, has units and a known cost, and has a
/// fresh price below its current one is repriced as soon as the difference of
/// the prices over all units reaches the configured improvement, at least one
/// coin, and the proceeds at the fresh price after tax exceed the cost.
pub proof fn worthwhile_sells_are_repriced<N: Number>(
    age: u64,
    since_last: Option<u64>,
    this_hour: u64,
    current: N,
    fresh: N,
    cost: N,
    amount: u64,
    config: LocalBazaarScanConfig<N>,
)
    requires
        age >= config.min_reprice_interval_seconds,
        since_last is Some ==> since_last->0 >= config.reprice_cooldown_seconds,
        this_hour < config.max_reprices_per_item_per_hour,
        amount > 0,
        cost.spec_is_finite() && !cost.spec_at_most(N::whole(0)),
        fresh.spec_is_finite() && !fresh.spec_at_most(N::whole(0)),
        !current.spec_at_most(fresh),
        !current.spec_minus(fresh).spec_times(N::whole(amount)).spec_below(
            config.min_reprice_profit_improvement.spec_larger(N::whole(1)),
        ),
        !fresh.spec_times(N::whole(amount)).spec_times(
            N::whole(1).spec_minus(
                config.bazaar_tax_rate.spec_larger(N::whole(0)).spec_over(N::whole(100)),
            ),
        ).spec_at_most(cost),
    ensures
        sell_reprice_block(
            age,
            since_last,
            this_hour,
            current,
            fresh,
            cost,
            amount,
            config,
        ) is None,
{
}

/// A sell order that is repriced has units, a known cost and a positive fresh
/// price below its current one; over all units the price moves by the
/// configured improvement and by at least one coin; and what the units bring in
/// at the fresh price after tax exceeds their cost.
pub proof fn repriced_sells_are_worthwhile<N: Number>(
    age: u64,
    since_last: Option<u64>,
    this_hour: u64,
    current: N,
    fresh: N,
    cost: N,
    amount: u64,
    config: LocalBazaarScanConfig<N>,
)
    requires
        sell_reprice_block(
            age,
            since_last,
            this_hour,
            current,
            fresh,
            cost,
            amount,
            config,
        ) is None,
    ensures
        amount > 0,
        cost.spec_is_finite() && !cost.spec_at_most(N::whole(0)),
        fresh.spec_is_finite() && !fresh.spec_at_most(N::whole(0)),
        !current.spec_at_most(fresh),
        !current.spec_minus(fresh).spec_times(N::whole(amount)).spec_below(
            config.min_reprice_profit_improvement.spec_larger(N::whole(1)),
        ),
        !fresh.spec_times(N::whole(amount)).spec_times(
            N::whole(1).spec_minus(
                config.bazaar_tax_rate.spec_larger(N::whole(0)).spec_over(N::whole(100)),
            ),
        ).spec_at_most(cost),
        age >= config.min_reprice_interval_seconds,
        since_last is Some ==> since_last->0 >= config.reprice_cooldown_seconds,
        this_hour < config.max_reprices_per_item_per_hour,
{
}

/// A sell order that moves by less than a coin over all units keeps its price,
/// however small the configured improvement.
pub proof fn tiny_moves_are_not_made<N: OrderedNumber>(
    age: u64,
    since_last: Option<u64>,
    this_hour: u64,
    current: N,
    fresh: N,
    cost: N,
    amount: u64,
    config: LocalBazaarScanConfig<N>,
)
    requires
        ({
            let moved = current.spec_minus(fresh).spec_times(N::whole(amount));
            moved.spec_below(N::whole(1)) || moved.spec_below(config.min_reprice_profit_improvement)
        }),
    ensures
        sell_reprice_block(
            age,
            since_last,
            this_hour,
            current,
            fresh,
            cost,
            amount,
            config,
        ) is Some,
{
    let moved = current.spec_minus(fresh).spec_times(N::whole(amount));
    let improvement = config.min_reprice_profit_improvement;
    let least = improvement.spec_larger(N::whole(1));
    N::larger_is_greatest(improvement, N::whole(1));
    N::whole_is_not_negative(1);
    N::below_is_defined(moved, N::whole(1));
    N::below_is_defined(moved, improvement);
    if moved.spec_below(N::whole(1)) {
        N::below_is_cotransitive(moved, least, N::whole(1));
    } else {
        N::below_is_cotransitive(moved, least, improvement);
    }
}

/// Why a sell order that is not held back keeps its price: its cost comes
/// before its fresh price, then whether it is overpriced, then the move, then
/// the profit.
pub proof fn kept_sell_prices_say_why<N: Number>(
    age: u64,
    since_last: Option<u64>,
    this_hour: u64,
    current: N,
    fresh: N,
    cost: N,
    amount: u64,
    config: LocalBazaarScanConfig<N>,
)
    requires
        age >= config.min_reprice_interval_seconds,
        since_last is Some ==> since_last->0 >= config.reprice_cooldown_seconds,
        this_hour < config.max_reprices_per_item_per_hour,
    ensures
        ({
            let reason = sell_reprice_block(
                age,
                since_last,
                this_hour,
                current,
                fresh,
                cost,
                amount,
                config,
            );
            let known = amount > 0 && cost.spec_is_finite() && !cost.spec_at_most(N::whole(0));
            let priced = fresh.spec_is_finite() && !fresh.spec_at_most(N::whole(0));
            let overpriced = !current.spec_at_most(fresh);
            let moves = !current.spec_minus(fresh).spec_times(N::whole(amount)).spec_below(
                config.min_reprice_profit_improvement.spec_larger(N::whole(1)),
            );
            &&& !known ==> reason == Some("UNKNOWN_COST_BASIS"@)
            &&& known && !priced ==> reason == Some("INVALID_SELL_PRICE"@)
            &&& known && priced && !overpriced ==> reason == Some("SELL_NOT_OVERPRICED"@)
            &&& known && priced && overpriced && !moves ==> reason == Some(
                "LOW_SELL_PRICE_MOVEMENT"@,
            )
            &&& known && priced && overpriced && moves ==> reason is None || reason == Some(
                "NEGATIVE_EXPECTED_PROFIT"@,
            )
        }),
{
}

/// A buy order that is not held back is repriced exactly when the expected
/// profit grows by the configured improvement, keeps seven tenths of what it
/// was, and no lots of the item are open.
pub proof fn worthwhile_buys_are_repriced<N: Number>(
    age: u64,
    since_last: Option<u64>,
    this_hour: u64,
    old_profit: N,
    new_profit: N,
    has_open_cost_lots: bool,
    config: LocalBazaarScanConfig<N>,
)
    ensures
        ({
            let reason = reprice_block(
                age,
                since_last,
                this_hour,
                old_profit,
                new_profit,
                has_open_cost_lots,
                config,
            );
            let free = age >= config.min_reprice_interval_seconds && (match since_last {
                Some(seconds) => seconds >= config.reprice_cooldown_seconds,
                None => true,
            }) && this_hour < config.max_reprices_per_item_per_hour;
            let improves = !new_profit.spec_minus(old_profit).spec_below(
                config.min_reprice_profit_improvement,
            );
            let erodes = new_profit.spec_below(
                old_profit.spec_times(N::whole(70).spec_over(N::whole(100))),
            );
            &&& reason is None <==> free && improves && !erodes && !has_open_cost_lots
            &&& free && !improves ==> reason == Some("LOW_REPRICE_IMPROVEMENT"@)
            &&& free && improves && erodes ==> reason == Some("PROFIT_EROSION"@)
            &&& free && improves && !erodes && has_open_cost_lots ==> reason == Some(
                "COST_LOTS_ALREADY_OPEN"@,
            )
            &&& !free ==> reason == reprice_throttle(age, since_last, this_hour, config)
        }),
{
}

/// What is not above a bound is not above it when it shrinks.
proof fn less_stays_within<N: OrderedNumber>(bound: N, more: N, less: N)
    requires
        less.spec_at_most(more),
        !bound.spec_below(more),
    ensures
        !bound.spec_below(less),
{
    N::below_is_defined(less, more);
    N::below_is_defined(bound, less);
    N::at_most_is_not_above(less, more);
    if bound.spec_below(less) {
        N::below_is_cotransitive(bound, more, less);
    }
}

/// A position that is taken is also taken with less bound in the item and in
/// total.
pub proof fn lighter_positions_stay_acceptable<N: OrderedNumber>(
    item_buys: N,
    item_lots: N,
    item_sells: N,
    all_buys: N,
    all_lots: N,
    all_sells: N,
    lighter: (N, N, N, N, N, N),
    config: LocalBazaarScanConfig<N>,
)
    requires
        position_limit(item_buys, item_lots, item_sells, all_buys, all_lots, all_sells, config)
            is None,
        lighter.0.spec_at_most(item_buys),
        lighter.1.spec_at_most(item_lots),
        lighter.2.spec_at_most(item_sells),
        lighter.3.spec_at_most(all_buys),
        lighter.4.spec_at_most(all_lots),
        lighter.5.spec_at_most(all_sells),
        item_buys.spec_is_finite() && item_lots.spec_is_finite() && item_sells.spec_is_finite(),
        all_buys.spec_is_finite() && all_lots.spec_is_finite() && all_sells.spec_is_finite(),
        lighter.0.spec_is_finite() && lighter.1.spec_is_finite() && lighter.2.spec_is_finite(),
        lighter.3.spec_is_finite() && lighter.4.spec_is_finite() && lighter.5.spec_is_finite(),
        item_buys.spec_plus(item_lots).spec_is_finite(),
        all_buys.spec_plus(all_lots).spec_is_finite(),
        lighter.0.spec_plus(lighter.1).spec_is_finite(),
        lighter.3.spec_plus(lighter.4).spec_is_finite(),
        lighter.0.spec_plus(item_lots).spec_is_finite(),
        lighter.3.spec_plus(all_lots).spec_is_finite(),
        lighter.0.spec_plus(lighter.1).spec_plus(item_sells).spec_is_finite(),
        lighter.3.spec_plus(lighter.4).spec_plus(all_sells).spec_is_finite(),
    ensures
        position_limit(
            lighter.0,
            lighter.1,
            lighter.2,
            lighter.3,
            lighter.4,
            lighter.5,
            config,
        ) is None,
{
    let capital = N::whole(
        if config.total_capital == 0 {
            1
        } else {
            config.total_capital
        },
    );
    let cap = N::whole(
        if config.per_item_exposure_cap > 0 {
            config.per_item_exposure_cap
        } else {
            config.max_capital_per_item
        },
    );
    let in_item = item_buys.spec_plus(item_lots).spec_plus(item_sells);
    let less_in_item = lighter.0.spec_plus(lighter.1).spec_plus(lighter.2);
    let in_all = all_buys.spec_plus(all_lots).spec_plus(all_sells);
    let less_in_all = lighter.3.spec_plus(lighter.4).spec_plus(lighter.5);
    sums_shrink(lighter.0, lighter.1, lighter.2, item_buys, item_lots, item_sells);
    sums_shrink(lighter.3, lighter.4, lighter.5, all_buys, all_lots, all_sells);
    less_stays_within(
        capital_share(capital, config.max_cost_lot_capital_ratio),
        all_lots,
        lighter.4,
    );
    less_stays_within(
        capital_share(capital, config.max_open_buy_capital_ratio),
        all_buys,
        lighter.3,
    );
    less_stays_within(capital_share(capital, config.active_capital_ratio), in_all, less_in_all);
    if cap.spec_at_most(less_in_item) {
        N::at_most_is_transitive(cap, less_in_item, in_item);
    }
    less_stays_within(N::whole(0), item_lots, lighter.1);
    less_stays_within(N::whole(0), item_sells, lighter.2);
}

proof fn sums_shrink<N: OrderedNumber>(a: N, b: N, c: N, x: N, y: N, z: N)
    requires
        a.spec_at_most(x),
        b.spec_at_most(y),
        c.spec_at_most(z),
        a.spec_is_finite() && b.spec_is_finite() && c.spec_is_finite(),
        x.spec_is_finite() && y.spec_is_finite() && z.spec_is_finite(),
        a.spec_plus(b).spec_is_finite(),
        a.spec_plus(y).spec_is_finite(),
        x.spec_plus(y).spec_is_finite(),
        a.spec_plus(b).spec_plus(z).spec_is_finite(),
    ensures
        a.spec_plus(b).spec_plus(c).spec_at_most(x.spec_plus(y).spec_plus(z)),
{
    N::plus_keeps_order(b, y, a);
    N::plus_keeps_order(a, x, y);
    N::at_most_is_transitive(a.spec_plus(b), a.spec_plus(y), x.spec_plus(y));
    N::plus_keeps_order(c, z, a.spec_plus(b));
    N::plus_keeps_order(a.spec_plus(b), x.spec_plus(y), z);
    N::at_most_is_transitive(
        a.spec_plus(b).spec_plus(c),
        a.spec_plus(b).spec_plus(z),
        x.spec_plus(y).spec_plus(z),
    );
}

/// A sell order that is repriced is also repriced where its units have cost
/// less, and where less of an improvement is asked for.
pub proof fn cheaper_lots_keep_the_new_price<N: OrderedNumber>(
    age: u64,
    since_last: Option<u64>,
    this_hour: u64,
    current: N,
    fresh: N,
    cost: N,
    cheaper: N,
    amount: u64,
    config: LocalBazaarScanConfig<N>,
    improvement: N,
)
    requires
        sell_reprice_block(age, since_last, this_hour, current, fresh, cost, amount, config)
            is None,
        cheaper.spec_at_most(cost),
        cheaper.spec_is_finite(),
        !cheaper.spec_at_most(N::whole(0)),
        improvement.spec_at_most(config.min_reprice_profit_improvement),
    ensures
        sell_reprice_block(age, since_last, this_hour, current, fresh, cheaper, amount, config)
            is None,
        sell_reprice_block(
            age,
            since_last,
            this_hour,
            current,
            fresh,
            cost,
            amount,
            LocalBazaarScanConfig { min_reprice_profit_improvement: improvement, ..config },
        ) is None,
{
    let proceeds = crate::bazaar_tracker::selling::sell_after_tax(
        fresh,
        amount,
        config.bazaar_tax_rate,
    );
    if proceeds.spec_at_most(cheaper) {
        N::at_most_is_transitive(proceeds, cheaper, cost);
    }
    let moved = current.spec_minus(fresh).spec_times(N::whole(amount));
    let most = config.min_reprice_profit_improvement.spec_larger(N::whole(1));
    let least = improvement.spec_larger(N::whole(1));
    N::smaller_keeps_order(improvement, config.min_reprice_profit_improvement, N::whole(1));
    N::below_is_defined(least, most);
    N::at_most_is_not_above(least, most);
    N::below_is_defined(moved, least);
    if moved.spec_below(least) {
        N::below_is_cotransitive(moved, most, least);
    }
}

} // verus!
