//! Which products are worth a closer look.

use vstd::prelude::*;
use vstd::string::*;

use crate::bazaar_scanner::config::LocalBazaarScanConfig;
use crate::bazaar_scanner::item_tags::{is_local_order_search_supported, searchable};
use crate::bazaar_scanner::market::{
    depth_metrics, depth_of, BazaarProduct, DepthMetrics, OrderBookLevel,
};
use crate::bazaar_scanner::risk::RejectReason;
use crate::bazaar_tracker::lots::smaller_of;
use crate::bazaar_tracker::performance::larger_of;
use crate::number::{clamp, clamped, fraction, ratio, Number};
use crate::text::{same_text, texts};

verus! {

/// The figures of a product: an order is placed just inside the best prices on
/// either side.
#[derive(Debug, Clone, Copy)]
pub struct ProductFigures<N> {
    pub best_buy_order: N,
    pub best_sell_offer: N,
    pub buy_price: N,
    pub sell_price: N,
    pub profit_per_unit: N,
    pub margin_percent: N,
    pub buy_volume_hour: N,
    pub sell_volume_hour: N,
    pub bottleneck_units_hour: N,
    pub volume_value_hour: N,
    pub sell_to_buy_flow_ratio: N,
    pub buy_depth: DepthMetrics<N>,
    pub sell_depth: DepthMetrics<N>,
}

/// The share of the proceeds that is left after tax.
pub open spec fn tax_multiplier<N: Number>(config: LocalBazaarScanConfig<N>) -> N {
    N::whole(1).spec_minus(
        config.bazaar_tax_rate.spec_larger(N::whole(0)).spec_over(N::whole(100)),
    )
}

/// The price of the first level, or `other` where there is none.
pub open spec fn best_price<N>(levels: Seq<OrderBookLevel<N>>, other: N) -> N {
    if levels.len() == 0 {
        other
    } else {
        levels[0].price_per_unit
    }
}

/// The figures of a product.
pub open spec fn figures_of<N: Number>(
    product: BazaarProduct<N>,
    config: LocalBazaarScanConfig<N>,
) -> ProductFigures<N> {
    let q = product.quick_status;
    let zero = N::whole(0);
    let step = config.price_undercut.spec_larger(zero);
    let best_buy_order = best_price(product.sell_summary@, q.sell_price);
    let best_sell_offer = best_price(product.buy_summary@, q.buy_price);
    let buy_price = best_buy_order.spec_plus(step);
    let sell_price = best_sell_offer.spec_minus(step).spec_larger(zero);
    let profit_per_unit = sell_price.spec_times(tax_multiplier(config)).spec_minus(buy_price);
    let buy_volume_hour = N::whole(q.buy_moving_week).spec_over(N::whole(168));
    let sell_volume_hour = N::whole(q.sell_moving_week).spec_over(N::whole(168));
    let bottleneck = buy_volume_hour.spec_smaller(sell_volume_hour).spec_larger(zero);
    ProductFigures {
        best_buy_order,
        best_sell_offer,
        buy_price,
        sell_price,
        profit_per_unit,
        margin_percent: profit_per_unit.spec_over(buy_price).spec_times(N::whole(100)),
        buy_volume_hour,
        sell_volume_hour,
        bottleneck_units_hour: bottleneck,
        volume_value_hour: bottleneck.spec_times(buy_price),
        sell_to_buy_flow_ratio: if zero.spec_below(buy_volume_hour) {
            clamped(sell_volume_hour.spec_over(buy_volume_hour), zero, N::whole(2))
        } else {
            zero
        },
        buy_depth: depth_of(product.sell_summary@),
        sell_depth: depth_of(product.buy_summary@),
    }
}

/// The potato books, where they are enabled, are flipped whatever the market.
pub open spec fn is_classic_flip<N>(tag: Seq<char>, config: LocalBazaarScanConfig<N>) -> bool {
    config.enable_classic_potato_book_flips && (tag == "HOT_POTATO_BOOK"@ || tag
        == "FUMING_POTATO_BOOK"@)
}

/// Why a product is left out at first sight.
pub open spec fn screen_reason<N: Number>(
    tag: Seq<char>,
    product: BazaarProduct<N>,
    config: LocalBazaarScanConfig<N>,
) -> Option<RejectReason> {
    let q = product.quick_status;
    let f = figures_of(product, config);
    let zero = N::whole(0);
    let classic = is_classic_flip(tag, config);
    let volume_floor = N::whole(
        larger_of(smaller_of(config.min_buy_volume, config.min_sell_volume), 1),
    );
    if !searchable(tag) {
        Some(RejectReason::UnsupportedProductLookup)
    } else if q.buy_price.spec_at_most(zero) || q.sell_price.spec_at_most(zero) {
        Some(RejectReason::InvalidPrice)
    } else if product.buy_summary@.len() == 0 || product.sell_summary@.len() == 0 {
        Some(RejectReason::ThinOrderbook)
    } else if !classic && (q.buy_orders < config.min_order_count || q.sell_orders
        < config.min_order_count || q.buy_volume == 0 || q.sell_volume == 0
        || q.spec_moving_week() == 0) {
        Some(RejectReason::LowVolume)
    } else if f.profit_per_unit.spec_at_most(zero) || f.profit_per_unit.spec_below(
        config.min_profit_per_unit,
    ) {
        Some(RejectReason::LowRoiAfterTax)
    } else if f.margin_percent.spec_below(
        config.min_roi_percent.spec_larger(config.min_margin_percent),
    ) {
        Some(RejectReason::LowRoiAfterTax)
    } else if !classic && zero.spec_below(config.max_margin_percent)
        && config.max_margin_percent.spec_below(f.margin_percent) {
        Some(RejectReason::ManipulationRisk)
    } else if !classic && f.volume_value_hour.spec_below(config.min_volume_value_hour) {
        Some(RejectReason::LowVolume)
    } else if !classic && f.bottleneck_units_hour.spec_below(
        volume_floor.spec_over(N::whole(24)),
    ) && f.volume_value_hour.spec_below(config.preferred_volume_value_hour) {
        Some(RejectReason::LowVolume)
    } else if !classic && f.sell_to_buy_flow_ratio.spec_below(ratio(25, 100)) {
        Some(RejectReason::LowSellLiquidity)
    } else if !classic && (f.buy_depth.depth_5_value.spec_at_most(zero)
        || f.sell_depth.depth_5_value.spec_at_most(zero)) {
        Some(RejectReason::ThinOrderbook)
    } else {
        None
    }
}

impl<N: Number> ProductFigures<N> {
    /// The smaller of the first levels' values.
    pub open spec fn spec_top_depth(self) -> N {
        self.buy_depth.top_value.spec_smaller(self.sell_depth.top_value)
    }

    /// The smaller of the first five levels' values.
    pub open spec fn spec_depth_5(self) -> N {
        self.buy_depth.depth_5_value.spec_smaller(self.sell_depth.depth_5_value)
    }

    pub open spec fn spec_spread(self) -> N {
        self.sell_price.spec_minus(self.buy_price)
    }

    pub fn top_depth(&self) -> (r: N)
        ensures
            r == self.spec_top_depth(),
    {
        self.buy_depth.top_value.smaller(self.sell_depth.top_value)
    }

    pub fn depth_5(&self) -> (r: N)
        ensures
            r == self.spec_depth_5(),
    {
        self.buy_depth.depth_5_value.smaller(self.sell_depth.depth_5_value)
    }

    pub fn spread(&self) -> (r: N)
        ensures
            r == self.spec_spread(),
    {
        self.sell_price.minus(self.buy_price)
    }
}

/// `note`, if it applies.
pub open spec fn note_if(applies: bool, note: Seq<char>) -> Seq<Seq<char>> {
    if applies {
        seq![note]
    } else {
        Seq::empty()
    }
}

/// What speaks against a product without ruling it out.
pub open spec fn liquidity_notes<N: Number>(
    f: ProductFigures<N>,
    config: LocalBazaarScanConfig<N>,
) -> Seq<Seq<char>> {
    note_if(f.spec_top_depth().spec_below(N::whole(100000)), "thin_top_level"@) + note_if(
        f.spec_depth_5().spec_below(N::whole(500000)),
        "thin_first_5_levels"@,
    ) + note_if(
        f.sell_depth.depth_5_value.spec_below(
            f.buy_depth.depth_5_value.spec_times(ratio(35, 100)),
        ) || f.sell_to_buy_flow_ratio.spec_below(ratio(55, 100)),
        "low_sell_liquidity"@,
    ) + note_if(
        config.max_margin_percent.spec_larger(N::whole(30)).spec_times(
            ratio(75, 100),
        ).spec_at_most(f.margin_percent) && f.volume_value_hour.spec_below(
            config.preferred_volume_value_hour,
        ),
        "high_margin_low_liquidity"@,
    )
}

fn first_price<N: Number>(levels: &Vec<OrderBookLevel<N>>, other: N) -> (r: N)
    ensures
        r == best_price(levels@, other),
{
    if levels.len() == 0 {
        other
    } else {
        levels[0].price_per_unit
    }
}

/// The figures of a product.
pub fn product_figures<N: Number>(
    product: &BazaarProduct<N>,
    config: &LocalBazaarScanConfig<N>,
) -> (r: ProductFigures<N>)
    ensures
        r == figures_of(*product, *config),
{
    let q = product.quick_status;
    let zero = N::from_u64(0);
    let tax = N::from_u64(1).minus(config.bazaar_tax_rate.larger(zero).over(N::from_u64(100)));
    let step = config.price_undercut.larger(zero);
    let best_buy_order = first_price(&product.sell_summary, q.sell_price);
    let best_sell_offer = first_price(&product.buy_summary, q.buy_price);
    let buy_price = best_buy_order.plus(step);
    let sell_price = best_sell_offer.minus(step).larger(zero);
    let profit_per_unit = sell_price.times(tax).minus(buy_price);
    let buy_volume_hour = N::from_u64(q.buy_moving_week).over(N::from_u64(168));
    let sell_volume_hour = N::from_u64(q.sell_moving_week).over(N::from_u64(168));
    let bottleneck_units_hour = buy_volume_hour.smaller(sell_volume_hour).larger(zero);
    let sell_to_buy_flow_ratio = if zero.below(buy_volume_hour) {
        clamp(sell_volume_hour.over(buy_volume_hour), zero, N::from_u64(2))
    } else {
        zero
    };
    ProductFigures {
        best_buy_order,
        best_sell_offer,
        buy_price,
        sell_price,
        profit_per_unit,
        margin_percent: profit_per_unit.over(buy_price).times(N::from_u64(100)),
        buy_volume_hour,
        sell_volume_hour,
        bottleneck_units_hour,
        volume_value_hour: bottleneck_units_hour.times(buy_price),
        sell_to_buy_flow_ratio,
        buy_depth: depth_metrics(&product.sell_summary),
        sell_depth: depth_metrics(&product.buy_summary),
    }
}

/// Whether a product is flipped whatever the market.
pub fn is_classic<N: Number>(item_tag: &str, config: &LocalBazaarScanConfig<N>) -> (r: bool)
    ensures
        r == is_classic_flip(item_tag@, *config),
{
    config.enable_classic_potato_book_flips && (same_text(item_tag, "HOT_POTATO_BOOK") || same_text(
        item_tag,
        "FUMING_POTATO_BOOK",
    ))
}

/// The figures of a product that is worth a closer look, or why it is not.
pub fn screen_product<N: Number>(
    item_tag: &str,
    product: &BazaarProduct<N>,
    config: &LocalBazaarScanConfig<N>,
) -> (r: Result<ProductFigures<N>, RejectReason>)
    ensures
        match r {
            Ok(f) => screen_reason(item_tag@, *product, *config) is None && f == figures_of(
                *product,
                *config,
            ),
            Err(reason) => screen_reason(item_tag@, *product, *config) == Some(reason),
        },
{
    let q = product.quick_status;
    let zero = N::from_u64(0);
    let classic = is_classic(item_tag, config);
    if !is_local_order_search_supported(item_tag) {
        return Err(RejectReason::UnsupportedProductLookup);
    }
    if q.buy_price.at_most(zero) || q.sell_price.at_most(zero) {
        return Err(RejectReason::InvalidPrice);
    }
    if product.buy_summary.len() == 0 || product.sell_summary.len() == 0 {
        return Err(RejectReason::ThinOrderbook);
    }
    if !classic && (q.buy_orders < config.min_order_count || q.sell_orders < config.min_order_count
        || q.buy_volume == 0 || q.sell_volume == 0 || q.moving_week() == 0) {
        return Err(RejectReason::LowVolume);
    }
    let f = product_figures(product, config);
    if f.profit_per_unit.at_most(zero) || f.profit_per_unit.below(config.min_profit_per_unit) {
        return Err(RejectReason::LowRoiAfterTax);
    }
    if f.margin_percent.below(config.min_roi_percent.larger(config.min_margin_percent)) {
        return Err(RejectReason::LowRoiAfterTax);
    }
    if classic {
        return Ok(f);
    }
    if zero.below(config.max_margin_percent) && config.max_margin_percent.below(
        f.margin_percent,
    ) {
        return Err(RejectReason::ManipulationRisk);
    }
    if f.volume_value_hour.below(config.min_volume_value_hour) {
        return Err(RejectReason::LowVolume);
    }
    let smaller_volume = if config.min_buy_volume <= config.min_sell_volume {
        config.min_buy_volume
    } else {
        config.min_sell_volume
    };
    let volume_floor: N = N::from_u64(
        if smaller_volume >= 1 {
            smaller_volume
        } else {
            1
        },
    );
    if f.bottleneck_units_hour.below(volume_floor.over(N::from_u64(24)))
        && f.volume_value_hour.below(config.preferred_volume_value_hour) {
        return Err(RejectReason::LowVolume);
    }
    if f.sell_to_buy_flow_ratio.below(fraction(25, 100)) {
        return Err(RejectReason::LowSellLiquidity);
    }
    if f.buy_depth.depth_5_value.at_most(zero) || f.sell_depth.depth_5_value.at_most(zero) {
        return Err(RejectReason::ThinOrderbook);
    }
    Ok(f)
}

/// Adds a note, if it applies.
fn add_note(notes: &mut Vec<String>, applies: bool, note: &str)
    ensures
        texts(final(notes)@) == texts(old(notes)@) + note_if(applies, note@),
{
    if applies {
        let text = note.to_string();
        notes.push(text);
        assert(texts(notes@) =~= texts(old(notes)@).push(text@));
    }
    assert(texts(notes@) =~= texts(old(notes)@) + note_if(applies, note@));
}

/// What speaks against a product without ruling it out.
pub fn risk_notes_for<N: Number>(f: &ProductFigures<N>, config: &LocalBazaarScanConfig<N>) -> (r:
    Vec<String>)
    ensures
        texts(r@) == liquidity_notes(*f, *config),
{
    let mut notes: Vec<String> = Vec::new();
    assert(texts(notes@) =~= Seq::empty());
    let thin_top = f.top_depth().below(N::from_u64(100000));
    let thin_depth = f.depth_5().below(N::from_u64(500000));
    let low_sell = f.sell_depth.depth_5_value.below(
        f.buy_depth.depth_5_value.times(fraction(35, 100)),
    ) || f.sell_to_buy_flow_ratio.below(fraction(55, 100));
    let high_margin = config.max_margin_percent.larger(N::from_u64(30)).times(
        fraction(75, 100),
    ).at_most(f.margin_percent) && f.volume_value_hour.below(config.preferred_volume_value_hour);
    add_note(&mut notes, thin_top, "thin_top_level");
    add_note(&mut notes, thin_depth, "thin_first_5_levels");
    add_note(&mut notes, low_sell, "low_sell_liquidity");
    add_note(&mut notes, high_margin, "high_margin_low_liquidity");
    assert(texts(notes@) =~= liquidity_notes(*f, *config));
    notes
}

} // verus!
