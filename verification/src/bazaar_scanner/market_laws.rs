//! What is read from the order book, from past prices and from the notes on a
//! product.

use vstd::prelude::*;
use vstd::string::*;

use crate::bazaar_scanner::history::{
    deviation, price_changes, recent, reliability, sell_prices, since, spreads, MarketRecord,
};
use crate::bazaar_scanner::item_tags::product_name;
use crate::bazaar_scanner::market::{
    depth_of, first_of, has_depth, level_values, order_count, product_position, quote_of, sum_of,
    BazaarProduct, OrderBookLevel, QuickStatus,
};
use crate::bazaar_scanner::risk::{
    recommendation, risk_level, tally_of, RejectReason, RiskLevel,
};
use crate::listing::{lookup, lookup_after_with_entry, Entries};
use crate::number::{
    clamped, clamped_stays_within, fraction_of_one_is_not_above, ratio, Number, OrderedNumber,
};

verus! {

/// A level has depth when it has a price and units.
pub proof fn depth_needs_price_and_units<N: Number>(level: OrderBookLevel<N>)
    ensures
        has_depth(level) <==> level.amount > 0 && N::whole(0).spec_below(level.price_per_unit),
{
}

/// What lies behind the tenth level does not count.
pub proof fn ten_levels_are_looked_at<N: Number>(
    levels: Seq<OrderBookLevel<N>>,
    more: OrderBookLevel<N>,
)
    requires
        levels.len() >= 10,
    ensures
        depth_of(levels.push(more)) == depth_of(levels),
{
    assert(levels.push(more).take(10) =~= levels.take(10));
    if levels.len() == 10 {
        assert(levels.take(10) =~= levels);
    }
}

/// A level without a price or without units does not count.
pub proof fn empty_levels_do_not_count<N: Number>(
    levels: Seq<OrderBookLevel<N>>,
    more: OrderBookLevel<N>,
)
    requires
        more.amount == 0 || !N::whole(0).spec_below(more.price_per_unit),
    ensures
        depth_of(levels.push(more)) == depth_of(levels),
{
    if levels.len() >= 10 {
        ten_levels_are_looked_at(levels, more);
    } else {
        assert(levels.push(more).drop_last() =~= levels);
        if levels.len() == 9 {
            assert(levels.push(more).take(10) =~= levels.push(more));
        }
    }
}

/// Without levels there is no depth. The first level that counts is the top, at
/// price times units, and with it alone all three figures are its value.
pub proof fn the_first_level_is_the_top<N: Number>(level: OrderBookLevel<N>)
    requires
        level.amount > 0,
        N::whole(0).spec_below(level.price_per_unit),
    ensures
        ({
            let none = depth_of(Seq::<OrderBookLevel<N>>::empty());
            let one = depth_of(seq![level]);
            let value = level.price_per_unit.spec_times(N::whole(level.amount));
            &&& none.top_value == N::whole(0)
            &&& none.depth_5_value == N::whole(0)
            &&& none.avg_value == N::whole(0)
            &&& one.top_value == value
            &&& one.depth_5_value == N::whole(0).spec_plus(value)
            &&& one.avg_value == N::whole(0).spec_plus(value).spec_over(N::whole(1))
        }),
{
    let levels = seq![level];
    let value = level.price_per_unit.spec_times(N::whole(level.amount));
    assert(levels.drop_last() =~= Seq::empty());
    assert(level_values(levels.drop_last()) =~= Seq::<N>::empty());
    assert(level_values(levels) =~= seq![value]);
    assert(seq![value].drop_last() =~= Seq::empty());
    assert(sum_of(seq![value].drop_last()) == N::whole(0));
}

/// One level more that counts, among the first ten: the top stays; the value of
/// the first five grows by the level as long as fewer than five count, and stays
/// behind them; the average is that of all that count.
pub proof fn further_levels_add_to_the_depth<N: Number>(
    levels: Seq<OrderBookLevel<N>>,
    more: OrderBookLevel<N>,
)
    requires
        levels.len() < 10,
        more.amount > 0,
        N::whole(0).spec_below(more.price_per_unit),
    ensures
        ({
            let before = depth_of(levels);
            let after = depth_of(levels.push(more));
            let value = more.price_per_unit.spec_times(N::whole(more.amount));
            let counted = level_values(levels);
            &&& counted.len() <= levels.len()
            &&& counted.len() > 0 ==> after.top_value == before.top_value
            &&& counted.len() == 0 ==> after.top_value == value
            &&& counted.len() < 5 ==> after.depth_5_value == before.depth_5_value.spec_plus(value)
            &&& counted.len() >= 5 ==> after.depth_5_value == before.depth_5_value
            &&& after.avg_value == sum_of(counted).spec_plus(value).spec_over(
                N::whole((counted.len() + 1) as u64),
            )
            &&& counted.len() < 5 ==> after.avg_value == after.depth_5_value.spec_over(
                N::whole((counted.len() + 1) as u64),
            )
        }),
{
    let longer = levels.push(more);
    let value = more.price_per_unit.spec_times(N::whole(more.amount));
    let counted = level_values(levels);
    assert(longer.drop_last() =~= levels);
    if longer.len() == 10 {
        assert(longer.take(10) =~= longer);
    }
    assert(level_values(longer) == counted.push(value));
    assert(counted.push(value).drop_last() =~= counted);
    counted_levels_are_levels(levels);
    if counted.len() == 4 {
        assert(counted.push(value).take(5) =~= counted.push(value));
    } else if counted.len() >= 5 {
        assert(counted.push(value).take(5) =~= counted.take(5));
        if counted.len() == 5 {
            assert(counted.take(5) =~= counted);
        }
    }
}

proof fn counted_levels_are_levels<N: Number>(levels: Seq<OrderBookLevel<N>>)
    ensures
        level_values(levels).len() <= levels.len(),
    decreases levels.len(),
{
    if levels.len() > 0 {
        counted_levels_are_levels(levels.drop_last());
    }
}

/// The orders at some levels are counted level by level.
pub proof fn orders_are_counted_by_level<N>(
    levels: Seq<OrderBookLevel<N>>,
    more: OrderBookLevel<N>,
)
    ensures
        order_count(Seq::<OrderBookLevel<N>>::empty()) == 0,
        order_count(levels.push(more)) == order_count(levels).wrapping_add(more.orders),
        levels.len() < 5 ==> order_count(first_of(levels.push(more), 5)) == order_count(
            first_of(levels, 5),
        ).wrapping_add(more.orders),
        levels.len() >= 5 ==> order_count(first_of(levels.push(more), 5)) == order_count(
            first_of(levels, 5),
        ),
{
    assert(levels.push(more).drop_last() =~= levels);
    if levels.len() == 4 {
        assert(levels.push(more).take(5) =~= levels.push(more));
    }
    if levels.len() >= 5 {
        assert(levels.push(more).take(5) =~= levels.take(5));
        if levels.len() == 5 {
            assert(levels.take(5) =~= levels);
        }
    }
}

/// Of several products with the same tag the last is found; none is found
/// exactly where none bears the tag.
pub proof fn the_last_product_with_a_tag_is_found<N>(
    products: Seq<(String, BazaarProduct<N>)>,
    tag: Seq<char>,
)
    ensures
        ({
            let i = product_position(products, tag);
            &&& -1 <= i < products.len()
            &&& i >= 0 ==> products[i].0@ == tag
            &&& forall|j: int| i < j < products.len() ==> (#[trigger] products[j]).0@ != tag
        }),
    decreases products.len(),
{
    if products.len() > 0 && products.last().0@ != tag {
        let rest = products.drop_last();
        the_last_product_with_a_tag_is_found(rest, tag);
        let i = product_position(products, tag);
        assert(i >= 0 ==> products[i] == rest[i]);
        assert forall|j: int| i < j < products.len() implies (#[trigger] products[j]).0@ != tag by {
            if j < rest.len() {
                assert(products[j] == rest[j]);
            }
        }
    }
}

/// A quote carries the prices and volumes of its product, and what moved within
/// a week on the slower side.
pub proof fn quotes_report_their_product<N>(tag: Seq<char>, q: QuickStatus<N>)
    ensures
        ({
            let quote = quote_of(tag, q);
            &&& quote.item_tag == tag
            &&& quote.item_name == product_name(tag)
            &&& quote.buy_price == q.buy_price
            &&& quote.sell_price == q.sell_price
            &&& quote.buy_volume == q.buy_volume
            &&& quote.sell_volume == q.sell_volume
            &&& quote.moving_week <= q.buy_moving_week
            &&& quote.moving_week <= q.sell_moving_week
            &&& quote.moving_week == q.buy_moving_week || quote.moving_week == q.sell_moving_week
        }),
{
}

/// A snapshot counts exactly when it is the product's and not older than the
/// cutoff.
pub proof fn recent_snapshots_are_not_older<N>(
    history: Entries<Seq<MarketRecord<N>>>,
    tag: Seq<char>,
    cutoff: u64,
    m: MarketRecord<N>,
)
    ensures
        recent(history, tag, cutoff).contains(m) <==> {
            &&& lookup(history, tag) is Some
            &&& lookup(history, tag)->0.contains(m)
            &&& m.timestamp >= cutoff
        },
{
    let pred = since::<N>(cutoff);
    if lookup(history, tag) is Some {
        let all = lookup(history, tag)->0;
        if all.contains(m) && pred(m) {
            let i = choose|i: int| 0 <= i < all.len() && all[i] == m;
            all.lemma_filter_contains(pred, i);
        }
        if all.filter(pred).contains(m) {
            let i = choose|i: int| 0 <= i < all.filter(pred).len() && all.filter(pred)[i] == m;
            all.lemma_filter_pred(pred, i);
            all.lemma_filter_contains_rev(pred, m);
        }
    }
}

/// A price is off by the part of the average that it differs by. An average of
/// nothing is met by every price.
pub proof fn deviation_is_relative_to_the_average<N: Number>(current: N, average: N)
    ensures
        average.spec_magnitude().spec_below(N::whole(1).spec_over(N::whole(4503599627370496)))
            ==> deviation(current, average) == N::whole(0),
        !average.spec_magnitude().spec_below(N::whole(1).spec_over(N::whole(4503599627370496)))
            ==> deviation(current, average) == current.spec_minus(average).spec_over(
            average,
        ).spec_magnitude(),
{
}

/// Price changes are counted from one snapshot to the next, where the price
/// moved by more than 0.2 percent; there are fewer than snapshots.
pub proof fn price_changes_are_counted_in_turn<N: Number>(
    snapshots: Seq<MarketRecord<N>>,
    more: MarketRecord<N>,
)
    requires
        snapshots.len() > 0,
    ensures
        price_changes(seq![more]) == 0,
        price_changes(snapshots) < snapshots.len(),
        price_changes(snapshots.push(more)) == price_changes(snapshots) + (if N::whole(2).spec_over(
            N::whole(1000),
        ).spec_below(
            deviation(snapshots.last().target_sell_price, more.target_sell_price),
        ) {
            1nat
        } else {
            0nat
        }),
    decreases snapshots.len(),
{
    assert(snapshots.push(more).drop_last() =~= snapshots);
    if snapshots.len() > 1 {
        let rest = snapshots.drop_last();
        assert(rest.push(snapshots.last()) =~= snapshots);
        price_changes_are_counted_in_turn(rest, snapshots.last());
    }
}

/// Fewer than three snapshots support little, whatever the price.
pub proof fn short_histories_support_little<N: Number>(
    snapshots: Seq<MarketRecord<N>>,
    price: N,
    spread: N,
)
    requires
        snapshots.len() < 3,
    ensures
        ({
            let r = reliability(snapshots, price, spread);
            &&& r.stability == N::whole(72).spec_over(N::whole(100))
            &&& r.spread_reliability == N::whole(70).spec_over(N::whole(100))
            &&& r.note == Some("limited_history"@)
        }),
{
}

/// With three snapshots and more a price is as stable as it is near to the
/// average and the past prices are calm, and a spread as reliable as it is near
/// to the average spread; both stay between a fifth and one. A price off by more
/// than 12 percent or a spread off by more than 45 is a spike; else prices that
/// change from more than 55 percent of the snapshots are noted.
pub proof fn long_histories_support_average_prices<N: OrderedNumber>(
    snapshots: Seq<MarketRecord<N>>,
    price: N,
    spread: N,
)
    requires
        snapshots.len() >= 3,
    ensures
        ({
            let r = reliability(snapshots, price, spread);
            let n = N::whole(snapshots.len() as u64);
            let price_off = deviation(price, sum_of(sell_prices(snapshots)).spec_over(n));
            let spread_off = deviation(
                spread,
                sum_of(spreads(snapshots)).spec_over(n).spec_larger(ratio(1, 100)),
            );
            let noise = clamped(
                N::whole(price_changes(snapshots) as u64).spec_over(n),
                N::whole(0),
                N::whole(1),
            );
            let calm = N::whole(1).spec_minus(price_off.spec_times(N::whole(3))).spec_minus(
                noise.spec_times(ratio(35, 100)),
            );
            let kept = N::whole(1).spec_minus(spread_off.spec_times(N::whole(2)));
            let spike = ratio::<N>(12, 100).spec_below(price_off) || ratio::<N>(45, 100).spec_below(
                spread_off,
            );
            let restless = ratio::<N>(55, 100).spec_below(noise);
            &&& !r.stability.spec_below(ratio(20, 100))
            &&& !N::whole(1).spec_below(r.stability)
            &&& !calm.spec_below(ratio(20, 100)) && !N::whole(1).spec_below(calm) ==> r.stability
                == calm
            &&& calm.spec_below(ratio(20, 100)) ==> r.stability == ratio::<N>(20, 100)
            &&& !r.spread_reliability.spec_below(ratio(20, 100))
            &&& !N::whole(1).spec_below(r.spread_reliability)
            &&& !kept.spec_below(ratio(20, 100)) && !N::whole(1).spec_below(kept)
                ==> r.spread_reliability == kept
            &&& kept.spec_below(ratio(20, 100)) ==> r.spread_reliability == ratio::<N>(20, 100)
            &&& spike ==> r.note == Some("price_or_spread_spike"@)
            &&& !spike && restless ==> r.note == Some("top_price_changes_often"@)
            &&& !spike && !restless ==> r.note is None
        }),
{
    let n = N::whole(snapshots.len() as u64);
    let price_off = deviation(price, sum_of(sell_prices(snapshots)).spec_over(n));
    let spread_off = deviation(
        spread,
        sum_of(spreads(snapshots)).spec_over(n).spec_larger(ratio(1, 100)),
    );
    let noise = clamped(
        N::whole(price_changes(snapshots) as u64).spec_over(n),
        N::whole(0),
        N::whole(1),
    );
    fraction_of_one_is_not_above::<N>(20, 100, 1);
    clamped_stays_within(
        N::whole(1).spec_minus(price_off.spec_times(N::whole(3))).spec_minus(
            noise.spec_times(ratio(35, 100)),
        ),
        ratio(20, 100),
        N::whole(1),
    );
    clamped_stays_within(
        N::whole(1).spec_minus(spread_off.spec_times(N::whole(2))),
        ratio(20, 100),
        N::whole(1),
    );
}

/// The averages are over the sell prices and the spreads, each snapshot once.
pub proof fn averages_take_each_snapshot_once<N: Number>(
    snapshots: Seq<MarketRecord<N>>,
    more: MarketRecord<N>,
)
    ensures
        sell_prices(snapshots.push(more)) == sell_prices(snapshots).push(more.target_sell_price),
        spreads(snapshots.push(more)) == spreads(snapshots).push(more.spread),
        sum_of(sell_prices(snapshots.push(more))) == sum_of(sell_prices(snapshots)).spec_plus(
            more.target_sell_price,
        ),
        sum_of(spreads(snapshots.push(more))) == sum_of(spreads(snapshots)).spec_plus(more.spread),
        sum_of(Seq::<N>::empty()) == N::whole(0),
{
    let prices = sell_prices(snapshots).push(more.target_sell_price);
    let wider = spreads(snapshots).push(more.spread);
    assert(sell_prices(snapshots.push(more)) =~= prices);
    assert(spreads(snapshots.push(more)) =~= wider);
    assert(prices.drop_last() =~= sell_prices(snapshots));
    assert(wider.drop_last() =~= spreads(snapshots));
}

/// How severe a risk level is.
pub open spec fn severity(level: RiskLevel) -> int {
    match level {
        RiskLevel::Low => 0,
        RiskLevel::Medium => 1,
        RiskLevel::High => 2,
        RiskLevel::Extreme => 3,
    }
}

/// The risk is extreme exactly where a price that spikes is traded for less than
/// two million coins an hour. Else it is high from three notes on or below a
/// multiplier of 18 percent, medium from two notes on or below 38, and low
/// otherwise.
pub proof fn risk_goes_by_notes_and_multiplier<N: Number>(
    multiplier: N,
    notes: Seq<Seq<char>>,
    volume_value_hour: N,
)
    ensures
        ({
            let level = risk_level(multiplier, notes, volume_value_hour);
            let spikes = notes.contains("price_or_spread_spike"@) && volume_value_hour.spec_below(
                N::whole(2000000),
            );
            let doubtful = multiplier.spec_below(N::whole(18).spec_over(N::whole(100)));
            let weak = multiplier.spec_below(N::whole(38).spec_over(N::whole(100)));
            &&& level is Extreme <==> spikes
            &&& !spikes && (doubtful || notes.len() >= 3) ==> level is High
            &&& !spikes && !doubtful && notes.len() == 2 ==> level is Medium
            &&& !spikes && !doubtful && weak && notes.len() < 3 ==> level is Medium
            &&& !spikes && !doubtful && !weak && notes.len() < 2 ==> level is Low
        }),
{
}

/// A note more never lowers the risk.
pub proof fn notes_never_lower_the_risk<N: Number>(
    multiplier: N,
    notes: Seq<Seq<char>>,
    more: Seq<char>,
    volume_value_hour: N,
)
    ensures
        severity(risk_level(multiplier, notes.push(more), volume_value_hour)) >= severity(
            risk_level(multiplier, notes, volume_value_hour),
        ),
{
    let spike = "price_or_spread_spike"@;
    if notes.contains(spike) {
        let i = choose|i: int| 0 <= i < notes.len() && notes[i] == spike;
        assert(notes.push(more)[i] == spike);
    }
}

/// A smaller multiplier never lowers the risk.
pub proof fn smaller_multipliers_never_lower_the_risk<N: OrderedNumber>(
    multiplier: N,
    smaller: N,
    notes: Seq<Seq<char>>,
    volume_value_hour: N,
)
    requires
        smaller.spec_below(multiplier),
    ensures
        severity(risk_level(smaller, notes, volume_value_hour)) >= severity(
            risk_level(multiplier, notes, volume_value_hour),
        ),
{
    let doubtful = ratio::<N>(18, 100);
    let weak = ratio::<N>(38, 100);
    N::below_is_defined(smaller, multiplier);
    N::below_is_defined(multiplier, doubtful);
    N::below_is_defined(multiplier, weak);
    if multiplier.spec_below(doubtful) {
        N::below_is_cotransitive(multiplier, smaller, doubtful);
        N::below_is_asymmetric(smaller, multiplier);
    }
    if multiplier.spec_below(weak) {
        N::below_is_cotransitive(multiplier, smaller, weak);
        N::below_is_asymmetric(smaller, multiplier);
    }
}

/// What to make of a flip: extreme risk is taken for manipulation; high risk
/// below the preferred volume is risky; less than a million coins an hour is
/// dead; margin and volume on target make a strong candidate; twice the
/// preferred volume makes up for a margin below target, and twice the target
/// margin for a volume below the preferred one; the rest is good in moderation.
pub proof fn recommendations_weigh_margin_and_volume<N: Number>(
    roi: N,
    volume: N,
    level: RiskLevel,
    target: N,
    preferred: N,
)
    ensures
        ({
            let advice = recommendation(roi, volume, level, target, preferred);
            let risky = level is High && volume.spec_below(preferred);
            let dead = volume.spec_below(N::whole(1000000));
            let strong = target.spec_at_most(roi) && preferred.spec_at_most(volume);
            let busy = roi.spec_below(target) && preferred.spec_times(N::whole(2)).spec_at_most(
                volume,
            );
            let steep = target.spec_times(N::whole(2)).spec_at_most(roi) && volume.spec_below(
                preferred,
            );
            let open = !(level is Extreme) && !risky && !dead;
            &&& advice is PossibleManipulation <==> level is Extreme
            &&& advice is Risky <==> risky
            &&& advice is DeadItem <==> dead && !risky && !(level is Extreme)
            &&& advice is StrongCandidate <==> open && strong
            &&& advice is HighVolumeLowMargin <==> open && !strong && busy
            &&& advice is HighMarginLowVolume <==> open && !strong && !busy && steep
            &&& advice is GoodButLimitCapital <==> open && !strong && !busy && !steep
        }),
{
}

/// Reasons with the same name are the same reason.
pub proof fn reasons_have_names_of_their_own(a: RejectReason, b: RejectReason)
    requires
        a.name() == b.name(),
    ensures
        a == b,
{
    reveal_strlit("TOO_MUCH_OPEN_COST_BASIS");
    reveal_strlit("TOO_MUCH_OPEN_CAPITAL");
    reveal_strlit("INVENTORY_RISK");
    reveal_strlit("TOO_MANY_ACTIVE_BUYS");
    reveal_strlit("TOO_MANY_ACTIVE_SELLS");
    reveal_strlit("UNSUPPORTED_PRODUCT_LOOKUP");
    reveal_strlit("INVALID_PRICE");
    reveal_strlit("THIN_ORDERBOOK");
    reveal_strlit("LOW_VOLUME");
    reveal_strlit("LOW_ROI_AFTER_TAX");
    reveal_strlit("MANIPULATION_RISK");
    reveal_strlit("LOW_SELL_LIQUIDITY");
    reveal_strlit("UNSTABLE_HISTORY");
    reveal_strlit("CAPITAL_LIMIT");
    assert("TOO_MUCH_OPEN_COST_BASIS"@.len() == 24);
    assert("TOO_MUCH_OPEN_CAPITAL"@.len() == 21);
    assert("INVENTORY_RISK"@.len() == 14);
    assert("TOO_MANY_ACTIVE_BUYS"@.len() == 20);
    assert("TOO_MANY_ACTIVE_SELLS"@.len() == 21);
    assert("UNSUPPORTED_PRODUCT_LOOKUP"@.len() == 26);
    assert("INVALID_PRICE"@.len() == 13);
    assert("THIN_ORDERBOOK"@.len() == 14);
    assert("LOW_VOLUME"@.len() == 10);
    assert("LOW_ROI_AFTER_TAX"@.len() == 17);
    assert("MANIPULATION_RISK"@.len() == 17);
    assert("LOW_SELL_LIQUIDITY"@.len() == 18);
    assert("UNSTABLE_HISTORY"@.len() == 16);
    assert("CAPITAL_LIMIT"@.len() == 13);
    assert("TOO_MUCH_OPEN_CAPITAL"@[5] != "TOO_MANY_ACTIVE_SELLS"@[5]);
    assert("INVENTORY_RISK"@[0] != "THIN_ORDERBOOK"@[0]);
    assert("INVALID_PRICE"@[0] != "CAPITAL_LIMIT"@[0]);
    assert("LOW_ROI_AFTER_TAX"@[0] != "MANIPULATION_RISK"@[0]);
}

/// Reasons with the name `name`.
pub open spec fn is_named(name: Seq<char>) -> spec_fn(RejectReason) -> bool {
    |r: RejectReason| r.name() == name
}

/// Every reason is tallied as often as it was given, and no other.
pub proof fn reasons_are_tallied(reasons: Seq<RejectReason>, name: Seq<char>)
    requires
        reasons.len() <= usize::MAX,
    ensures
        ({
            let given = reasons.filter(is_named(name)).len();
            &&& given > 0 ==> lookup(tally_of(reasons), name) == Some(given as usize)
            &&& given == 0 ==> lookup(tally_of(reasons), name) is None
            &&& given <= reasons.len()
        }),
    decreases reasons.len(),
{
    reveal(Seq::filter);
    if reasons.len() > 0 {
        let rest = reasons.drop_last();
        let last = reasons.last();
        reasons_are_tallied(rest, name);
        let before = tally_of(rest);
        let count = match lookup(before, last.name()) {
            Some(n) => n,
            None => 0,
        };
        lookup_after_with_entry(before, last.name(), count.wrapping_add(1), name);
    } else {
        crate::listing::slot_is_first(tally_of(reasons), name);
    }
}

} // verus!
