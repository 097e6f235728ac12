//! Bazaar products as the market reports them.

use vstd::prelude::*;
use vstd::string::*;

use crate::bazaar_scanner::item_tags::{item_tag_to_name, product_name};
use crate::bazaar_tracker::lots::smaller_of;
use crate::number::Number;

verus! {

/// One price of an order book: the units offered or wanted at it, and by how
/// many orders.
#[derive(Debug, Clone, Copy)]
pub struct OrderBookLevel<N> {
    pub amount: u64,
    pub price_per_unit: N,
    pub orders: u64,
}

/// The key figures of a product. The sell price is the best buy order, which is
/// what an instant sell receives; the buy price is the best sell offer, which
/// is what an instant buy pays.
#[derive(Debug, Clone, Copy)]
pub struct QuickStatus<N> {
    pub buy_price: N,
    pub sell_price: N,
    pub buy_volume: u64,
    pub sell_volume: u64,
    pub buy_orders: u64,
    pub sell_orders: u64,
    pub buy_moving_week: u64,
    pub sell_moving_week: u64,
}

impl<N> QuickStatus<N> {
    /// The units that moved within a week on the slower side.
    pub open spec fn spec_moving_week(self) -> u64 {
        smaller_of(self.buy_moving_week, self.sell_moving_week)
    }

    pub fn moving_week(&self) -> (r: u64)
        ensures
            r == self.spec_moving_week(),
    {
        if self.buy_moving_week <= self.sell_moving_week {
            self.buy_moving_week
        } else {
            self.sell_moving_week
        }
    }
}

/// A product with its order book. The buy summary lists the sell offers and
/// the sell summary the buy orders, best price first.
#[derive(Debug, Clone)]
pub struct BazaarProduct<N> {
    pub quick_status: QuickStatus<N>,
    pub buy_summary: Vec<OrderBookLevel<N>>,
    pub sell_summary: Vec<OrderBookLevel<N>>,
}

/// No product stands twice.
pub open spec fn tags_are_distinct<N>(products: Seq<(String, BazaarProduct<N>)>) -> bool {
    forall|i: int, j: int|
        0 <= i < j < products.len() ==> (#[trigger] products[i]).0@ != (#[trigger] products[j]).0@
}

/// What the market answers: its products by tag. Each tag stands once where
/// `tags_are_distinct` holds; nothing here needs it.
#[derive(Debug, Clone)]
pub struct BazaarResponse<N> {
    pub success: bool,
    pub products: Vec<(String, BazaarProduct<N>)>,
}

/// The market answered that it failed.
#[derive(Debug, Clone, Copy, PartialEq, Eq)]
pub struct MarketUnavailable;

/// Prices and volumes of one product.
#[derive(Debug, Clone)]
pub struct BazaarProductQuote<N> {
    pub item_tag: String,
    pub item_name: String,
    pub buy_price: N,
    pub sell_price: N,
    pub buy_volume: u64,
    pub sell_volume: u64,
    pub moving_week: u64,
}

/// The contents of a quote.
pub struct QuoteRecord<N> {
    pub item_tag: Seq<char>,
    pub item_name: Seq<char>,
    pub buy_price: N,
    pub sell_price: N,
    pub buy_volume: u64,
    pub sell_volume: u64,
    pub moving_week: u64,
}

impl<N> View for BazaarProductQuote<N> {
    type V = QuoteRecord<N>;

    open spec fn view(&self) -> QuoteRecord<N> {
        QuoteRecord {
            item_tag: self.item_tag@,
            item_name: self.item_name@,
            buy_price: self.buy_price,
            sell_price: self.sell_price,
            buy_volume: self.buy_volume,
            sell_volume: self.sell_volume,
            moving_week: self.moving_week,
        }
    }
}

/// The quote of a product.
pub open spec fn quote_of<N>(tag: Seq<char>, q: QuickStatus<N>) -> QuoteRecord<N> {
    QuoteRecord {
        item_tag: tag,
        item_name: product_name(tag),
        buy_price: q.buy_price,
        sell_price: q.sell_price,
        buy_volume: q.buy_volume,
        sell_volume: q.sell_volume,
        moving_week: q.spec_moving_week(),
    }
}

fn quote<N: Number>(item_tag: &str, q: &QuickStatus<N>) -> (r: BazaarProductQuote<N>)
    ensures
        r@ == quote_of(item_tag@, *q),
{
    BazaarProductQuote {
        item_tag: item_tag.to_string(),
        item_name: item_tag_to_name(item_tag),
        buy_price: q.buy_price,
        sell_price: q.sell_price,
        buy_volume: q.buy_volume,
        sell_volume: q.sell_volume,
        moving_week: q.moving_week(),
    }
}

/// The quotes of all products.
pub fn product_quotes<N: Number>(response: &BazaarResponse<N>) -> (r: Result<
    Vec<BazaarProductQuote<N>>,
    MarketUnavailable,
>)
    ensures
        r is Ok <==> response.success,
        match r {
            Ok(quotes) => {
                &&& quotes.len() == response.products.len()
                &&& forall|i: int|
                    0 <= i < quotes.len() ==> (#[trigger] quotes@[i])@ == quote_of(
                        response.products@[i].0@,
                        response.products@[i].1.quick_status,
                    )
            },
            Err(_) => true,
        },
{
    if !response.success {
        return Err(MarketUnavailable);
    }
    let mut out: Vec<BazaarProductQuote<N>> = Vec::new();
    let mut i: usize = 0;
    while i < response.products.len()
        invariant
            i <= response.products.len(),
            out.len() == i,
            forall|j: int|
                0 <= j < i ==> (#[trigger] out@[j])@ == quote_of(
                    response.products@[j].0@,
                    response.products@[j].1.quick_status,
                ),
        decreases response.products.len() - i,
    {
        let entry = &response.products[i];
        out.push(quote(entry.0.as_str(), &entry.1.quick_status));
        i = i + 1;
    }
    Ok(out)
}

/// The position of the last product with the tag; -1 where there is none.
pub open spec fn product_position<N>(
    products: Seq<(String, BazaarProduct<N>)>,
    tag: Seq<char>,
) -> int
    decreases products.len(),
{
    if products.len() == 0 {
        -1
    } else if products.last().0@ == tag {
        products.len() - 1
    } else {
        product_position(products.drop_last(), tag)
    }
}

/// The quote of one product.
pub fn product_quote<N: Number>(response: &BazaarResponse<N>, item_tag: &str) -> (r: Result<
    Option<BazaarProductQuote<N>>,
    MarketUnavailable,
>)
    ensures
        r is Ok <==> response.success,
        match r {
            Ok(Some(found)) => {
                let i = product_position(response.products@, item_tag@);
                i >= 0 && found@ == quote_of(item_tag@, response.products@[i].1.quick_status)
            },
            Ok(None) => product_position(response.products@, item_tag@) < 0,
            Err(_) => true,
        },
{
    if !response.success {
        return Err(MarketUnavailable);
    }
    let ghost all = response.products@;
    let mut n: usize = response.products.len();
    assert(all.take(n as int) == all);
    while n > 0
        invariant
            n <= all.len(),
            response.success,
            all == response.products@,
            product_position(all, item_tag@) == product_position(all.take(n as int), item_tag@),
        decreases n,
    {
        assert(all.take(n as int).drop_last() == all.take(n - 1));
        let entry = &response.products[n - 1];
        if crate::text::same_text(entry.0.as_str(), item_tag) {
            return Ok(Some(quote(item_tag, &entry.1.quick_status)));
        }
        n = n - 1;
    }
    Ok(None)
}

/// The value of the first level, of the first five levels together and of all
/// looked-at levels on average.
#[derive(Debug, Clone, Copy)]
pub struct DepthMetrics<N> {
    pub top_value: N,
    pub depth_5_value: N,
    pub avg_value: N,
}

/// A level that has a price and units.
pub open spec fn has_depth<N: Number>(level: OrderBookLevel<N>) -> bool {
    N::whole(0).spec_below(level.price_per_unit) && level.amount > 0
}

/// The values of the levels that have a price and units.
pub open spec fn level_values<N: Number>(levels: Seq<OrderBookLevel<N>>) -> Seq<N>
    decreases levels.len(),
{
    if levels.len() == 0 {
        Seq::empty()
    } else {
        let before = level_values(levels.drop_last());
        let level = levels.last();
        if has_depth(level) {
            before.push(level.price_per_unit.spec_times(N::whole(level.amount)))
        } else {
            before
        }
    }
}

/// The sum of some numbers.
pub open spec fn sum_of<N: Number>(values: Seq<N>) -> N
    decreases values.len(),
{
    if values.len() == 0 {
        N::whole(0)
    } else {
        sum_of(values.drop_last()).spec_plus(values.last())
    }
}

/// At most the first `n` elements.
pub open spec fn first_of<T>(s: Seq<T>, n: nat) -> Seq<T> {
    if s.len() <= n {
        s
    } else {
        s.take(n as int)
    }
}

/// The depth of one side of an order book; ten levels are looked at.
pub open spec fn depth_of<N: Number>(levels: Seq<OrderBookLevel<N>>) -> DepthMetrics<N> {
    let values = level_values(first_of(levels, 10));
    DepthMetrics {
        top_value: if values.len() == 0 {
            N::whole(0)
        } else {
            values[0]
        },
        depth_5_value: sum_of(first_of(values, 5)),
        avg_value: if values.len() == 0 {
            N::whole(0)
        } else {
            sum_of(values).spec_over(N::whole(values.len() as u64))
        },
    }
}

/// The depth of one side of an order book.
pub fn depth_metrics<N: Number>(levels: &Vec<OrderBookLevel<N>>) -> (r: DepthMetrics<N>)
    ensures
        r == depth_of(levels@),
{
    let zero = N::from_u64(0);
    let end: usize = if levels.len() <= 10 {
        levels.len()
    } else {
        10
    };
    let ghost looked_at = first_of(levels@, 10);
    assert(looked_at =~= levels@.take(end as int));
    let mut count: u64 = 0;
    let mut top = zero;
    let mut sum_5 = zero;
    let mut sum = zero;
    let mut i: usize = 0;
    assert(level_values(levels@.take(0)) =~= Seq::empty());
    while i < end
        invariant
            i <= end <= levels.len(),
            end <= 10,
            count <= i,
            zero == N::whole(0),
            ({
                let values = level_values(levels@.take(i as int));
                &&& count == values.len()
                &&& top == (if values.len() == 0 {
                    N::whole(0)
                } else {
                    values[0]
                })
                &&& sum_5 == sum_of(first_of(values, 5))
                &&& sum == sum_of(values)
            }),
        decreases end - i,
    {
        let ghost values = level_values(levels@.take(i as int));
        let ghost next = level_values(levels@.take(i + 1));
        assert(levels@.take(i + 1).drop_last() == levels@.take(i as int));
        let level = levels[i];
        if zero.below(level.price_per_unit) && level.amount > 0 {
            let value = level.price_per_unit.times(N::from_u64(level.amount));
            assert(next == values.push(value));
            assert(next.drop_last() =~= values);
            if count == 0 {
                top = value;
            }
            if count < 5 {
                assert(first_of(next, 5) =~= next);
                assert(first_of(values, 5) =~= values);
                sum_5 = sum_5.plus(value);
            } else {
                assert(first_of(next, 5) =~= first_of(values, 5));
            }
            sum = sum.plus(value);
            count = count + 1;
        }
        i = i + 1;
    }
    DepthMetrics {
        top_value: top,
        depth_5_value: sum_5,
        avg_value: if count == 0 {
            zero
        } else {
            sum.over(N::from_u64(count))
        },
    }
}

/// How many orders stand at the first levels together; the count wraps around.
pub open spec fn order_count<N>(levels: Seq<OrderBookLevel<N>>) -> u64
    decreases levels.len(),
{
    if levels.len() == 0 {
        0
    } else {
        order_count(levels.drop_last()).wrapping_add(levels.last().orders)
    }
}

/// How many orders stand at the first five levels.
pub fn count_top_orders<N: Number>(levels: &Vec<OrderBookLevel<N>>) -> (r: u64)
    ensures
        r == order_count(first_of(levels@, 5)),
{
    let end: usize = if levels.len() <= 5 {
        levels.len()
    } else {
        5
    };
    assert(first_of(levels@, 5) =~= levels@.take(end as int));
    let mut total: u64 = 0;
    let mut i: usize = 0;
    while i < end
        invariant
            i <= end <= levels.len(),
            total == order_count(levels@.take(i as int)),
        decreases end - i,
    {
        assert(levels@.take(i + 1).drop_last() == levels@.take(i as int));
        total = total.wrapping_add(levels[i].orders);
        i = i + 1;
    }
    total
}

} // verus!
