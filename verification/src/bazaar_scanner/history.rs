//! Past prices of products, and how reliable they make a price.

use vstd::prelude::*;
use vstd::string::*;

use crate::bazaar_scanner::market::sum_of;
use crate::bazaar_tracker::records::option_text;
use crate::listing::{lookup, with_entry, Entries, Listing};
use crate::number::{clamp, clamped, fraction, ratio, Number};

verus! {

/// The prices of a product at one moment.
#[derive(Debug, Clone)]
pub struct MarketSnapshot<N> {
    pub timestamp: u64,
    pub product_id: String,
    pub best_buy_order: N,
    pub best_sell_offer: N,
    pub target_buy_price: N,
    pub target_sell_price: N,
    pub spread: N,
    pub net_spread: N,
    pub roi: N,
    pub buy_volume_hour: N,
    pub sell_volume_hour: N,
    pub top_buy_depth_value: N,
    pub top_sell_depth_value: N,
    pub score: N,
    pub risk_level: String,
}

/// The contents of a market snapshot.
pub struct MarketRecord<N> {
    pub timestamp: u64,
    pub product_id: Seq<char>,
    pub best_buy_order: N,
    pub best_sell_offer: N,
    pub target_buy_price: N,
    pub target_sell_price: N,
    pub spread: N,
    pub net_spread: N,
    pub roi: N,
    pub buy_volume_hour: N,
    pub sell_volume_hour: N,
    pub top_buy_depth_value: N,
    pub top_sell_depth_value: N,
    pub score: N,
    pub risk_level: Seq<char>,
}

impl<N> View for MarketSnapshot<N> {
    type V = MarketRecord<N>;

    open spec fn view(&self) -> MarketRecord<N> {
        MarketRecord {
            timestamp: self.timestamp,
            product_id: self.product_id@,
            best_buy_order: self.best_buy_order,
            best_sell_offer: self.best_sell_offer,
            target_buy_price: self.target_buy_price,
            target_sell_price: self.target_sell_price,
            spread: self.spread,
            net_spread: self.net_spread,
            roi: self.roi,
            buy_volume_hour: self.buy_volume_hour,
            sell_volume_hour: self.sell_volume_hour,
            top_buy_depth_value: self.top_buy_depth_value,
            top_sell_depth_value: self.top_sell_depth_value,
            score: self.score,
            risk_level: self.risk_level@,
        }
    }
}

impl<N: Number> MarketSnapshot<N> {
    /// The same snapshot again.
    pub fn copy(&self) -> (r: Self)
        ensures
            r@ == self@,
    {
        MarketSnapshot {
            timestamp: self.timestamp,
            product_id: self.product_id.clone(),
            best_buy_order: self.best_buy_order,
            best_sell_offer: self.best_sell_offer,
            target_buy_price: self.target_buy_price,
            target_sell_price: self.target_sell_price,
            spread: self.spread,
            net_spread: self.net_spread,
            roi: self.roi,
            buy_volume_hour: self.buy_volume_hour,
            sell_volume_hour: self.sell_volume_hour,
            top_buy_depth_value: self.top_buy_depth_value,
            top_sell_depth_value: self.top_sell_depth_value,
            score: self.score,
            risk_level: self.risk_level.clone(),
        }
    }
}

/// The contents of a list of snapshots.
pub open spec fn market_records<N>(snapshots: Seq<MarketSnapshot<N>>) -> Seq<MarketRecord<N>> {
    snapshots.map_values(|s: MarketSnapshot<N>| s@)
}

/// The snapshots of one product, oldest first.
#[derive(Debug, Clone)]
pub struct ProductHistory<N> {
    pub snapshots: Vec<MarketSnapshot<N>>,
}

impl<N> View for ProductHistory<N> {
    type V = Seq<MarketRecord<N>>;

    open spec fn view(&self) -> Seq<MarketRecord<N>> {
        market_records(self.snapshots@)
    }
}

/// The snapshots of all products.
#[derive(Debug, Clone)]
pub struct MarketHistory<N> {
    pub products: Listing<ProductHistory<N>>,
}

impl<N> View for MarketHistory<N> {
    type V = Entries<Seq<MarketRecord<N>>>;

    open spec fn view(&self) -> Entries<Seq<MarketRecord<N>>> {
        self.products@
    }
}

/// Snapshots that are not older than `cutoff`.
pub open spec fn since<N>(cutoff: u64) -> spec_fn(MarketRecord<N>) -> bool {
    |s: MarketRecord<N>| s.timestamp >= cutoff
}

/// The snapshots of a product since `cutoff`.
pub open spec fn recent<N>(
    history: Entries<Seq<MarketRecord<N>>>,
    tag: Seq<char>,
    cutoff: u64,
) -> Seq<MarketRecord<N>> {
    match lookup(history, tag) {
        Some(snapshots) => snapshots.filter(since(cutoff)),
        None => Seq::empty(),
    }
}

impl<N: Number> MarketHistory<N> {
    pub fn new() -> (r: Self)
        ensures
            r@ == Seq::<(Seq<char>, Seq<MarketRecord<N>>)>::empty(),
    {
        MarketHistory { products: Listing::new() }
    }

    /// The snapshots of a product since `cutoff`.
    pub fn recent_snapshots(&self, tag: &str, cutoff: u64) -> (r: Vec<MarketSnapshot<N>>)
        ensures
            market_records(r@) == recent(self@, tag@, cutoff),
    {
        let mut out: Vec<MarketSnapshot<N>> = Vec::new();
        proof {
            reveal(Seq::filter);
        }
        match self.products.get(tag) {
            Some(known) => {
                let ghost all = known@;
                let ghost pred = since::<N>(cutoff);
                let mut i: usize = 0;
                assert(market_records(out@) =~= all.take(0).filter(pred));
                while i < known.snapshots.len()
                    invariant
                        i <= known.snapshots.len(),
                        all == known@,
                        pred == since::<N>(cutoff),
                        market_records(out@) == all.take(i as int).filter(pred),
                    decreases known.snapshots.len() - i,
                {
                    proof {
                        crate::bazaar_tracker::orders::filter_one_more(all, i as int, pred);
                    }
                    let s = &known.snapshots[i];
                    if s.timestamp >= cutoff {
                        let ghost before = out@;
                        let again = s.copy();
                        out.push(again);
                        assert(market_records(out@) =~= market_records(before).push(again@));
                    }
                    i = i + 1;
                }
                assert(all.take(i as int) =~= all);
            },
            None => {
                assert(market_records(out@) =~= Seq::empty());
            },
        }
        out
    }

    /// Replaces the snapshots of a product.
    pub fn store(&mut self, tag: &str, snapshots: Vec<MarketSnapshot<N>>)
        ensures
            final(self)@ == with_entry(old(self)@, tag@, market_records(snapshots@)),
    {
        self.products.insert(tag.to_string(), ProductHistory { snapshots });
    }
}

/// By what fraction `current` is off `average`; an average of nothing is taken
/// as met.
pub open spec fn deviation<N: Number>(current: N, average: N) -> N {
    if average.spec_magnitude().spec_below(ratio(1, 4503599627370496)) {
        N::whole(0)
    } else {
        current.spec_minus(average).spec_over(average).spec_magnitude()
    }
}

pub fn relative_deviation<N: Number>(current: N, average: N) -> (r: N)
    ensures
        r == deviation(current, average),
{
    if average.magnitude().below(fraction(1, 4503599627370496)) {
        N::from_u64(0)
    } else {
        current.minus(average).over(average).magnitude()
    }
}

/// The sell prices of some snapshots.
pub open spec fn sell_prices<N>(snapshots: Seq<MarketRecord<N>>) -> Seq<N> {
    snapshots.map_values(|s: MarketRecord<N>| s.target_sell_price)
}

/// The spreads of some snapshots.
pub open spec fn spreads<N>(snapshots: Seq<MarketRecord<N>>) -> Seq<N> {
    snapshots.map_values(|s: MarketRecord<N>| s.spread)
}

/// How often the sell price moved by more than 0.2 percent from one snapshot to
/// the next.
pub open spec fn price_changes<N: Number>(snapshots: Seq<MarketRecord<N>>) -> nat
    decreases snapshots.len(),
{
    if snapshots.len() <= 1 {
        0
    } else {
        let n = snapshots.len() as int;
        price_changes(snapshots.drop_last()) + (if ratio::<N>(2, 1000).spec_below(
            deviation(snapshots[n - 2].target_sell_price, snapshots[n - 1].target_sell_price),
        ) {
            1nat
        } else {
            0nat
        })
    }
}

/// How far past snapshots support a price and a spread.
pub struct Reliability<N> {
    pub stability: N,
    pub spread_reliability: N,
    pub note: Option<Seq<char>>,
}

/// How far the snapshots support the current price and spread. Fewer than three
/// support little.
pub open spec fn reliability<N: Number>(
    snapshots: Seq<MarketRecord<N>>,
    current_sell_price: N,
    current_spread: N,
) -> Reliability<N> {
    if snapshots.len() < 3 {
        Reliability {
            stability: ratio(72, 100),
            spread_reliability: ratio(70, 100),
            note: Some("limited_history"@),
        }
    } else {
        let n = N::whole(snapshots.len() as u64);
        let avg_price = sum_of(sell_prices(snapshots)).spec_over(n);
        let avg_spread = sum_of(spreads(snapshots)).spec_over(n);
        let price_dev = deviation(current_sell_price, avg_price);
        let spread_dev = deviation(current_spread, avg_spread.spec_larger(ratio(1, 100)));
        let noise = clamped(
            N::whole(price_changes(snapshots) as u64).spec_over(n),
            N::whole(0),
            N::whole(1),
        );
        Reliability {
            stability: clamped(
                N::whole(1).spec_minus(price_dev.spec_times(N::whole(3))).spec_minus(
                    noise.spec_times(ratio(35, 100)),
                ),
                ratio(20, 100),
                N::whole(1),
            ),
            spread_reliability: clamped(
                N::whole(1).spec_minus(spread_dev.spec_times(N::whole(2))),
                ratio(20, 100),
                N::whole(1),
            ),
            note: if ratio::<N>(12, 100).spec_below(price_dev) || ratio::<N>(45, 100).spec_below(
                spread_dev,
            ) {
                Some("price_or_spread_spike"@)
            } else if ratio::<N>(55, 100).spec_below(noise) {
                Some("top_price_changes_often"@)
            } else {
                None
            },
        }
    }
}

/// How far past snapshots support the current price and spread: stability,
/// reliability of the spread, and a note.
pub fn history_factors<N: Number>(
    snapshots: &Vec<MarketSnapshot<N>>,
    current_sell_price: N,
    current_spread: N,
) -> (r: (N, N, Option<String>))
    ensures
        (Reliability { stability: r.0, spread_reliability: r.1, note: option_text(r.2) })
            == reliability(market_records(snapshots@), current_sell_price, current_spread),
{
    if snapshots.len() < 3 {
        return (fraction(72, 100), fraction(70, 100), Some("limited_history".to_string()));
    }
    let ghost all = market_records(snapshots@);
    let mut price_sum: N = N::from_u64(0);
    let mut spread_sum: N = N::from_u64(0);
    let mut changes: u64 = 0;
    let change_limit: N = fraction(2, 1000);
    let mut i: usize = 0;
    assert(sell_prices(all.take(0)) =~= Seq::empty());
    assert(spreads(all.take(0)) =~= Seq::empty());
    while i < snapshots.len()
        invariant
            i <= snapshots.len(),
            changes <= i,
            all == market_records(snapshots@),
            change_limit == ratio::<N>(2, 1000),
            price_sum == sum_of(sell_prices(all.take(i as int))),
            spread_sum == sum_of(spreads(all.take(i as int))),
            changes == price_changes(all.take(i as int)),
        decreases snapshots.len() - i,
    {
        let ghost seen = all.take(i as int);
        let ghost next = all.take(i + 1);
        assert(next.drop_last() =~= seen);
        assert(sell_prices(next).drop_last() =~= sell_prices(seen));
        assert(spreads(next).drop_last() =~= spreads(seen));
        price_sum = price_sum.plus(snapshots[i].target_sell_price);
        spread_sum = spread_sum.plus(snapshots[i].spread);
        if i > 0 {
            assert(next[i - 1] == snapshots@[i - 1]@);
            if change_limit.below(
                relative_deviation(
                    snapshots[i - 1].target_sell_price,
                    snapshots[i].target_sell_price,
                ),
            ) {
                changes = changes + 1;
            }
        }
        i = i + 1;
    }
    assert(all.take(i as int) =~= all);
    let one = N::from_u64(1);
    let count = N::from_u64(snapshots.len() as u64);
    let avg_price = price_sum.over(count);
    let avg_spread = spread_sum.over(count);
    let price_dev = relative_deviation(current_sell_price, avg_price);
    let spread_dev = relative_deviation(current_spread, avg_spread.larger(fraction(1, 100)));
    let competition_noise = clamp(N::from_u64(changes).over(count), N::from_u64(0), one);
    let stability = clamp(
        one.minus(price_dev.times(N::from_u64(3))).minus(
            competition_noise.times(fraction(35, 100)),
        ),
        fraction(20, 100),
        one,
    );
    let spread_reliability = clamp(
        one.minus(spread_dev.times(N::from_u64(2))),
        fraction(20, 100),
        one,
    );
    let price_limit: N = fraction(12, 100);
    let spread_limit: N = fraction(45, 100);
    let noise_limit: N = fraction(55, 100);
    let note = if price_limit.below(price_dev) || spread_limit.below(spread_dev) {
        Some("price_or_spread_spike".to_string())
    } else if noise_limit.below(competition_noise) {
        Some("top_price_changes_often".to_string())
    } else {
        None
    };
    (stability, spread_reliability, note)
}

} // verus!
