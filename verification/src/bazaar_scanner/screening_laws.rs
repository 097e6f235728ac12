//! What the figures of a product are, and which products pass the screening.

use vstd::prelude::*;
use vstd::string::*;

use crate::bazaar_scanner::config::LocalBazaarScanConfig;
use crate::bazaar_scanner::item_tags::searchable;
use crate::bazaar_scanner::market::{depth_of, BazaarProduct};
use crate::bazaar_scanner::risk::RejectReason;
use crate::bazaar_scanner::screening::{
    figures_of, is_classic_flip, liquidity_notes, screen_reason, ProductFigures,
};
use crate::number::{clamped_stays_within, ratio, Number, OrderedNumber};
use crate::text::begins_with;

verus! {

/// An order is placed just inside the best price of its own side: a buy outbids
/// the best buy order and a sell undercuts the best sell offer by the configured
/// step. A negative step counts as none, and a sell price never falls below
/// zero. Best prices come from the order book, or else from the key figures.
pub proof fn orders_are_placed_inside_the_best_prices<N: Number>(
    product: BazaarProduct<N>,
    config: LocalBazaarScanConfig<N>,
)
    ensures
        ({
            let f = figures_of(product, config);
            let q = product.quick_status;
            let step = config.price_undercut.spec_larger(N::whole(0));
            &&& product.sell_summary@.len() > 0 ==> f.best_buy_order
                == product.sell_summary@[0].price_per_unit
            &&& product.sell_summary@.len() == 0 ==> f.best_buy_order == q.sell_price
            &&& product.buy_summary@.len() > 0 ==> f.best_sell_offer
                == product.buy_summary@[0].price_per_unit
            &&& product.buy_summary@.len() == 0 ==> f.best_sell_offer == q.buy_price
            &&& f.buy_price == f.best_buy_order.spec_plus(step)
            &&& f.sell_price == f.best_sell_offer.spec_minus(step).spec_larger(N::whole(0))
        }),
{
}

/// A unit earns its sell price less the tax, which is given in percent and never
/// negative, less its buy price; the margin is that profit in percent of the buy
/// price.
pub proof fn profit_is_what_is_left_after_tax<N: Number>(
    product: BazaarProduct<N>,
    config: LocalBazaarScanConfig<N>,
)
    ensures
        ({
            let f = figures_of(product, config);
            let tax = config.bazaar_tax_rate.spec_larger(N::whole(0)).spec_over(N::whole(100));
            &&& f.profit_per_unit == f.sell_price.spec_times(
                N::whole(1).spec_minus(tax),
            ).spec_minus(f.buy_price)
            &&& f.margin_percent == f.profit_per_unit.spec_over(f.buy_price).spec_times(
                N::whole(100),
            )
        }),
{
}

/// Hourly volumes are a week's units over its 168 hours; the slower side bounds
/// the flow, and the hourly value is that flow at the buy price.
pub proof fn the_slower_side_bounds_the_flow<N: OrderedNumber>(
    product: BazaarProduct<N>,
    config: LocalBazaarScanConfig<N>,
)
    ensures
        ({
            let f = figures_of(product, config);
            let q = product.quick_status;
            let flow = f.bottleneck_units_hour;
            &&& f.buy_volume_hour == N::whole(q.buy_moving_week).spec_over(N::whole(168))
            &&& f.sell_volume_hour == N::whole(q.sell_moving_week).spec_over(N::whole(168))
            &&& flow == f.buy_volume_hour || flow == f.sell_volume_hour || flow == N::whole(0)
            &&& !f.buy_volume_hour.spec_below(N::whole(0)) ==> !f.buy_volume_hour.spec_below(flow)
            &&& !f.sell_volume_hour.spec_below(N::whole(0)) ==> !f.sell_volume_hour.spec_below(flow)
            &&& !flow.spec_below(N::whole(0))
            &&& f.volume_value_hour == flow.spec_times(f.buy_price)
        }),
{
    let f = figures_of(product, config);
    let least = f.buy_volume_hour.spec_smaller(f.sell_volume_hour);
    N::smaller_is_least(f.buy_volume_hour, f.sell_volume_hour);
    N::larger_is_greatest(least, N::whole(0));
}

/// Sells per buy, between none and two; without buys there is no flow.
pub proof fn flow_compares_sells_to_buys<N: OrderedNumber>(
    product: BazaarProduct<N>,
    config: LocalBazaarScanConfig<N>,
)
    ensures
        ({
            let f = figures_of(product, config);
            let sells_per_buy = f.sell_volume_hour.spec_over(f.buy_volume_hour);
            &&& !N::whole(0).spec_below(f.buy_volume_hour) ==> f.sell_to_buy_flow_ratio == N::whole(
                0,
            )
            &&& N::whole(0).spec_below(f.buy_volume_hour) && !sells_per_buy.spec_below(N::whole(0))
                && !N::whole(2).spec_below(sells_per_buy) ==> f.sell_to_buy_flow_ratio
                == sells_per_buy
            &&& N::whole(0).spec_below(f.buy_volume_hour) && N::whole(2).spec_below(sells_per_buy)
                && !sells_per_buy.spec_below(N::whole(0)) ==> f.sell_to_buy_flow_ratio == N::whole(
                2,
            )
        }),
{
    let f = figures_of(product, config);
    N::whole_is_not_negative(2);
    clamped_stays_within(
        f.sell_volume_hour.spec_over(f.buy_volume_hour),
        N::whole(0),
        N::whole(2),
    );
}

/// Buys are served from the sell summary, which lists the buy orders, and sells
/// from the buy summary; the depth of a product is that of its thinner side.
pub proof fn depth_is_that_of_the_thinner_side<N: OrderedNumber>(
    product: BazaarProduct<N>,
    config: LocalBazaarScanConfig<N>,
)
    ensures
        ({
            let f = figures_of(product, config);
            &&& f.buy_depth == depth_of(product.sell_summary@)
            &&& f.sell_depth == depth_of(product.buy_summary@)
            &&& !f.buy_depth.top_value.spec_below(f.spec_top_depth())
            &&& !f.sell_depth.top_value.spec_below(f.spec_top_depth())
            &&& f.spec_top_depth() == f.buy_depth.top_value || f.spec_top_depth()
                == f.sell_depth.top_value
            &&& !f.buy_depth.depth_5_value.spec_below(f.spec_depth_5())
            &&& !f.sell_depth.depth_5_value.spec_below(f.spec_depth_5())
            &&& f.spec_depth_5() == f.buy_depth.depth_5_value || f.spec_depth_5()
                == f.sell_depth.depth_5_value
        }),
{
    let f = figures_of(product, config);
    N::smaller_is_least(f.buy_depth.top_value, f.sell_depth.top_value);
    N::smaller_is_least(f.buy_depth.depth_5_value, f.sell_depth.depth_5_value);
}

/// Only the two potato books are classic flips, and only where they are enabled.
pub proof fn potato_books_are_classic<N>(tag: Seq<char>, config: LocalBazaarScanConfig<N>)
    ensures
        is_classic_flip(tag, config) ==> config.enable_classic_potato_book_flips,
        is_classic_flip(tag, config) ==> tag == "HOT_POTATO_BOOK"@ || tag == "FUMING_POTATO_BOOK"@,
        config.enable_classic_potato_book_flips ==> is_classic_flip("HOT_POTATO_BOOK"@, config)
            && is_classic_flip("FUMING_POTATO_BOOK"@, config),
{
}

/// The order search finds every product but enchantments and essences.
pub proof fn enchantments_and_essences_are_not_searched(tag: Seq<char>)
    ensures
        begins_with(tag, "ENCHANTMENT_"@) || begins_with(tag, "ESSENCE_"@) <==> !searchable(tag),
{
}

/// A product passes the screening exactly when it can be searched, has prices
/// and orders on both sides, and earns the configured least per unit and in
/// percent; and, unless it is a classic flip, when enough orders and units move
/// on both sides, its margin is not suspicious, its hourly volume is large
/// enough, sells keep up with a quarter of the buys, and both sides have depth.
pub proof fn passing_products_meet_every_demand<N: Number>(
    tag: Seq<char>,
    product: BazaarProduct<N>,
    config: LocalBazaarScanConfig<N>,
)
    ensures
        ({
            let q = product.quick_status;
            let f = figures_of(product, config);
            let zero = N::whole(0);
            let classic = config.enable_classic_potato_book_flips && (tag == "HOT_POTATO_BOOK"@
                || tag == "FUMING_POTATO_BOOK"@);
            let least_volume = if config.min_buy_volume < config.min_sell_volume {
                config.min_buy_volume
            } else {
                config.min_sell_volume
            };
            let least_flow = N::whole(
                if least_volume == 0 {
                    1
                } else {
                    least_volume
                },
            ).spec_over(N::whole(24));
            screen_reason(tag, product, config) is None <==> {
                &&& searchable(tag)
                &&& !q.buy_price.spec_at_most(zero)
                &&& !q.sell_price.spec_at_most(zero)
                &&& product.buy_summary@.len() > 0
                &&& product.sell_summary@.len() > 0
                &&& !f.profit_per_unit.spec_at_most(zero)
                &&& !f.profit_per_unit.spec_below(config.min_profit_per_unit)
                &&& !f.margin_percent.spec_below(
                    config.min_roi_percent.spec_larger(config.min_margin_percent),
                )
                &&& classic || {
                    &&& q.buy_orders >= config.min_order_count
                    &&& q.sell_orders >= config.min_order_count
                    &&& q.buy_volume > 0
                    &&& q.sell_volume > 0
                    &&& q.buy_moving_week > 0
                    &&& q.sell_moving_week > 0
                    &&& zero.spec_below(config.max_margin_percent)
                        ==> !config.max_margin_percent.spec_below(f.margin_percent)
                    &&& !f.volume_value_hour.spec_below(config.min_volume_value_hour)
                    &&& f.bottleneck_units_hour.spec_below(least_flow)
                        ==> !f.volume_value_hour.spec_below(config.preferred_volume_value_hour)
                    &&& !f.sell_to_buy_flow_ratio.spec_below(N::whole(25).spec_over(N::whole(100)))
                    &&& !f.buy_depth.depth_5_value.spec_at_most(zero)
                    &&& !f.sell_depth.depth_5_value.spec_at_most(zero)
                }
            }
        }),
{
}

/// Why a product fails the screening: what cannot be searched comes first, then
/// missing prices, then an empty side of the order book, then too few orders or
/// units, then too little profit, then a suspicious margin; what is left is too
/// little volume, too few sells or no depth.
pub proof fn failing_products_say_why<N: Number>(
    tag: Seq<char>,
    product: BazaarProduct<N>,
    config: LocalBazaarScanConfig<N>,
)
    ensures
        ({
            let q = product.quick_status;
            let f = figures_of(product, config);
            let zero = N::whole(0);
            let reason = screen_reason(tag, product, config);
            let classic = is_classic_flip(tag, config);
            let priced = !q.buy_price.spec_at_most(zero) && !q.sell_price.spec_at_most(zero);
            let listed = product.buy_summary@.len() > 0 && product.sell_summary@.len() > 0;
            let moving = classic || (q.buy_orders >= config.min_order_count && q.sell_orders
                >= config.min_order_count && q.buy_volume > 0 && q.sell_volume > 0
                && q.buy_moving_week > 0 && q.sell_moving_week > 0);
            let earning = !f.profit_per_unit.spec_at_most(zero) && !f.profit_per_unit.spec_below(
                config.min_profit_per_unit,
            ) && !f.margin_percent.spec_below(
                config.min_roi_percent.spec_larger(config.min_margin_percent),
            );
            let suspicious = !classic && zero.spec_below(config.max_margin_percent)
                && config.max_margin_percent.spec_below(f.margin_percent);
            &&& !searchable(tag) <==> reason == Some(RejectReason::UnsupportedProductLookup)
            &&& searchable(tag) && !priced <==> reason == Some(RejectReason::InvalidPrice)
            &&& searchable(tag) && priced && !listed ==> reason == Some(
                RejectReason::ThinOrderbook,
            )
            &&& searchable(tag) && priced && listed && !moving ==> reason == Some(
                RejectReason::LowVolume,
            )
            &&& searchable(tag) && priced && listed && moving && !earning <==> reason == Some(
                RejectReason::LowRoiAfterTax,
            )
            &&& searchable(tag) && priced && listed && moving && earning && suspicious <==> reason
                == Some(RejectReason::ManipulationRisk)
            &&& reason == Some(RejectReason::LowSellLiquidity)
                ==> f.sell_to_buy_flow_ratio.spec_below(ratio(25, 100))
            &&& reason is None ==> searchable(tag) && priced && listed && moving && earning
                && !suspicious
        }),
{
}

/// Among products that earn enough, too little hourly value, or too slow a flow
/// of less than the preferred value, is reported as low volume, then too few
/// sells, then a side without depth.
pub proof fn thin_markets_are_reported<N: Number>(
    tag: Seq<char>,
    product: BazaarProduct<N>,
    config: LocalBazaarScanConfig<N>,
)
    requires
        searchable(tag),
        !is_classic_flip(tag, config),
        !product.quick_status.buy_price.spec_at_most(N::whole(0)),
        !product.quick_status.sell_price.spec_at_most(N::whole(0)),
        product.buy_summary@.len() > 0,
        product.sell_summary@.len() > 0,
        product.quick_status.buy_orders >= config.min_order_count,
        product.quick_status.sell_orders >= config.min_order_count,
        product.quick_status.buy_volume > 0,
        product.quick_status.sell_volume > 0,
        product.quick_status.buy_moving_week > 0,
        product.quick_status.sell_moving_week > 0,
        ({
            let f = figures_of(product, config);
            &&& !f.profit_per_unit.spec_at_most(N::whole(0))
            &&& !f.profit_per_unit.spec_below(config.min_profit_per_unit)
            &&& !f.margin_percent.spec_below(
                config.min_roi_percent.spec_larger(config.min_margin_percent),
            )
            &&& !N::whole(0).spec_below(config.max_margin_percent)
                || !config.max_margin_percent.spec_below(f.margin_percent)
        }),
    ensures
        ({
            let f = figures_of(product, config);
            let reason = screen_reason(tag, product, config);
            let least_volume = if config.min_buy_volume < config.min_sell_volume {
                config.min_buy_volume
            } else {
                config.min_sell_volume
            };
            let slow = f.bottleneck_units_hour.spec_below(
                N::whole(
                    if least_volume == 0 {
                        1
                    } else {
                        least_volume
                    },
                ).spec_over(N::whole(24)),
            ) && f.volume_value_hour.spec_below(config.preferred_volume_value_hour);
            let small = f.volume_value_hour.spec_below(config.min_volume_value_hour) || slow;
            let unsold = f.sell_to_buy_flow_ratio.spec_below(ratio(25, 100));
            let shallow = f.buy_depth.depth_5_value.spec_at_most(N::whole(0))
                || f.sell_depth.depth_5_value.spec_at_most(N::whole(0));
            &&& small ==> reason == Some(RejectReason::LowVolume)
            &&& !small && unsold ==> reason == Some(RejectReason::LowSellLiquidity)
            &&& !small && !unsold && shallow ==> reason == Some(RejectReason::ThinOrderbook)
            &&& !small && !unsold && !shallow ==> reason is None
        }),
{
}

/// The notes on a product, in this order: a first level of less than a hundred
/// thousand coins; first levels of less than half a million; sells that are thin
/// beside the buys or slow; a margin near the suspicious one at less than the
/// preferred volume.
pub proof fn notes_tell_what_is_thin<N: Number>(
    f: ProductFigures<N>,
    config: LocalBazaarScanConfig<N>,
)
    ensures
        ({
            let notes = liquidity_notes(f, config);
            let top = f.buy_depth.top_value.spec_smaller(f.sell_depth.top_value).spec_below(
                N::whole(100000),
            );
            let five = f.buy_depth.depth_5_value.spec_smaller(
                f.sell_depth.depth_5_value,
            ).spec_below(N::whole(500000));
            let slow = f.sell_depth.depth_5_value.spec_below(
                f.buy_depth.depth_5_value.spec_times(N::whole(35).spec_over(N::whole(100))),
            ) || f.sell_to_buy_flow_ratio.spec_below(N::whole(55).spec_over(N::whole(100)));
            let steep = config.max_margin_percent.spec_larger(N::whole(30)).spec_times(
                N::whole(75).spec_over(N::whole(100)),
            ).spec_at_most(f.margin_percent) && f.volume_value_hour.spec_below(
                config.preferred_volume_value_hour,
            );
            let one = |applies: bool|
                if applies {
                    1int
                } else {
                    0int
                };
            &&& notes.len() == one(top) + one(five) + one(slow) + one(steep)
            &&& top ==> notes[0] == "thin_top_level"@
            &&& five ==> notes[one(top)] == "thin_first_5_levels"@
            &&& slow ==> notes[one(top) + one(five)] == "low_sell_liquidity"@
            &&& steep ==> notes[one(top) + one(five) + one(slow)] == "high_margin_low_liquidity"@
        }),
{
}

/// A higher tax never raises the profit per unit, and changes no price.
pub proof fn taxes_never_raise_profit<N: OrderedNumber>(
    product: BazaarProduct<N>,
    config: LocalBazaarScanConfig<N>,
    higher: N,
)
    requires
        config.bazaar_tax_rate.spec_at_most(higher),
        config.bazaar_tax_rate.spec_is_finite(),
        higher.spec_is_finite(),
        ({
            let f = figures_of(product, config);
            let paid = config.bazaar_tax_rate.spec_larger(N::whole(0)).spec_over(N::whole(100));
            let paid_more = higher.spec_larger(N::whole(0)).spec_over(N::whole(100));
            let left = N::whole(1).spec_minus(paid);
            let left_less = N::whole(1).spec_minus(paid_more);
            &&& paid.spec_is_finite() && paid_more.spec_is_finite()
            &&& left.spec_is_finite() && left_less.spec_is_finite()
            &&& f.sell_price.spec_is_finite() && f.buy_price.spec_is_finite()
            &&& f.sell_price.spec_times(left).spec_is_finite()
            &&& f.sell_price.spec_times(left_less).spec_is_finite()
        }),
    ensures
        ({
            let f = figures_of(product, config);
            let taxed = figures_of(
                product,
                LocalBazaarScanConfig { bazaar_tax_rate: higher, ..config },
            );
            &&& taxed.profit_per_unit.spec_at_most(f.profit_per_unit)
            &&& taxed.buy_price == f.buy_price
            &&& taxed.sell_price == f.sell_price
        }),
{
    let f = figures_of(product, config);
    let zero = N::whole(0);
    let rate = config.bazaar_tax_rate;
    let paid = rate.spec_larger(zero).spec_over(N::whole(100));
    let paid_more = higher.spec_larger(zero).spec_over(N::whole(100));
    let left = N::whole(1).spec_minus(paid);
    let left_less = N::whole(1).spec_minus(paid_more);
    N::whole_is_not_negative(0);
    N::whole_is_not_negative(1);
    N::whole_is_not_negative(100);
    N::larger_is_greatest(rate, zero);
    N::larger_is_greatest(higher, zero);
    N::smaller_keeps_order(rate, higher, zero);
    N::whole_keeps_order(0, 100);
    N::over_keeps_order(rate.spec_larger(zero), higher.spec_larger(zero), N::whole(100));
    N::plus_keeps_order(paid, paid_more, N::whole(1));
    N::larger_is_greatest(f.best_sell_offer.spec_minus(config.price_undercut.spec_larger(zero)), zero);
    N::times_keeps_order(left_less, left, f.sell_price);
    N::plus_keeps_order(
        f.sell_price.spec_times(left_less),
        f.sell_price.spec_times(left),
        f.buy_price,
    );
}

} // verus!
