//! Reconciling the tracked orders with those that the bazaar shows.

use vstd::prelude::*;
use vstd::string::*;

use crate::bazaar_tracker::item_key::{match_key, normalize_for_match};
use crate::bazaar_tracker::lots::{count_units, smaller_of, total_amount};
use crate::bazaar_tracker::orders::filter_one_more;
use crate::bazaar_tracker::records::{
    order_records, BuyCostLot, OrderRecord, TrackedBazaarOrder,
};
use crate::bazaar_tracker::state::{BazaarOrderTracker, TrackerState};
use crate::listing::{distinct, listed, lookup, with_entry, Entries, Listing};
use crate::number::Number;
use crate::text::same_text;

verus! {

/// An order that the bazaar shows: item, side, amount and price. A sell order
/// without an amount does not count.
pub open spec fn is_row_for<N>(row: (String, bool, u64, N), key: Seq<char>, side: bool) -> bool {
    match_key(row.0@) == key && row.1 == side && (side || row.2 > 0)
}

/// Amount and price of the rows for an item on one side.
pub open spec fn rows_for<N>(
    rows: Seq<(String, bool, u64, N)>,
    key: Seq<char>,
    side: bool,
) -> Seq<(u64, N)>
    decreases rows.len(),
{
    if rows.len() == 0 {
        Seq::empty()
    } else {
        let before = rows_for(rows.drop_last(), key, side);
        if is_row_for(rows.last(), key, side) {
            before.push((rows.last().2, rows.last().3))
        } else {
            before
        }
    }
}

/// The name under which an item is shown: that of its first row, whatever its
/// amount.
pub open spec fn shown_name<N>(
    rows: Seq<(String, bool, u64, N)>,
    key: Seq<char>,
    side: bool,
) -> Seq<char>
    decreases rows.len(),
{
    if rows.len() == 0 {
        key
    } else if match_key(rows[0].0@) == key && rows[0].1 == side {
        rows[0].0@
    } else {
        shown_name(rows.drop_first(), key, side)
    }
}

/// Orders for the item `key` on one side, whatever their status.
pub open spec fn for_item<N>(key: Seq<char>, side: bool) -> spec_fn(OrderRecord<N>) -> bool {
    |o: OrderRecord<N>| o.is_for(key, side)
}

/// How many orders there are for an item on one side.
pub open spec fn count_for<N>(orders: Seq<OrderRecord<N>>, key: Seq<char>, side: bool) -> nat {
    orders.filter(for_item(key, side)).len()
}

/// How much of `amount` the units listed under `key` cover.
pub open spec fn drawn(s: Entries<u64>, key: Seq<char>, amount: u64) -> u64 {
    match lookup(s, key) {
        Some(units) => smaller_of(units, amount),
        None => 0,
    }
}

/// The units that are left when as many of `amount` as possible are drawn.
pub open spec fn after_draw(s: Entries<u64>, key: Seq<char>, amount: u64) -> Entries<u64> {
    match lookup(s, key) {
        Some(units) => with_entry(s, key, (units - drawn(s, key, amount)) as u64),
        None => s,
    }
}

/// The listing with no units under `key`.
pub open spec fn cleared(s: Entries<u64>, key: Seq<char>) -> Entries<u64> {
    if listed(s, key) {
        with_entry(s, key, 0)
    } else {
        s
    }
}

/// How many units the lots of each item hold.
pub open spec fn unit_counts<N>(lots: Entries<Seq<BuyCostLot<N>>>) -> Entries<u64> {
    lots.map_values(|e: (Seq<char>, Seq<BuyCostLot<N>>)| (e.0, total_amount(e.1)))
}

/// The orders while they are reconciled, with the units that were collected
/// already and that the bazaar may still show as part of an order.
pub struct Reconciled<N> {
    pub orders: Seq<OrderRecord<N>>,
    pub bought: Entries<u64>,
    pub sold: Entries<u64>,
}

/// An order as the bazaar shows it: an amount or a price of nothing is not
/// taken over, and a new price makes the order a new one.
pub open spec fn refreshed<N: Number>(
    o: OrderRecord<N>,
    amount: u64,
    price: N,
    now: u64,
) -> OrderRecord<N> {
    let priced = N::whole(0).spec_below(price);
    let moved = N::whole(1).spec_over(N::whole(100)).spec_below(
        o.price_per_unit.spec_minus(price).spec_magnitude(),
    );
    OrderRecord {
        amount: if amount > 0 {
            amount
        } else {
            o.amount
        },
        price_per_unit: if priced {
            price
        } else {
            o.price_per_unit
        },
        placed_at: if priced && moved {
            now
        } else {
            o.placed_at
        },
        ..o
    }
}

/// A tracked order meets the row that stands for it. The row of a buy order
/// still includes what was collected; that of a sell order does where it shows
/// more than is tracked.
pub open spec fn matched<N: Number>(
    r: Reconciled<N>,
    o: OrderRecord<N>,
    row: (u64, N),
    now: u64,
) -> Reconciled<N> {
    let key = o.key();
    if o.is_buy_order {
        Reconciled {
            orders: r.orders.push(
                refreshed(o, (row.0 - drawn(r.bought, key, row.0)) as u64, row.1, now),
            ),
            bought: after_draw(r.bought, key, row.0),
            ..r
        }
    } else if row.0 > o.amount {
        let more = (row.0 - o.amount) as u64;
        Reconciled {
            orders: r.orders.push(
                refreshed(o, (row.0 - drawn(r.sold, key, more)) as u64, row.1, now),
            ),
            sold: after_draw(r.sold, key, more),
            ..r
        }
    } else {
        Reconciled {
            orders: r.orders.push(refreshed(o, row.0, row.1, now)),
            sold: cleared(r.sold, key),
            ..r
        }
    }
}

/// An item of which cost lots are held.
pub open spec fn is_backed<N>(lots: Entries<Seq<BuyCostLot<N>>>, key: Seq<char>) -> bool {
    match lookup(lots, key) {
        Some(held) => total_amount(held) > 0,
        None => false,
    }
}

/// A tracked order stays as long as the bazaar shows an order for it. A sell
/// order of which cost lots are held stays in any case: its units are in the
/// bazaar until they are claimed.
pub open spec fn reconcile_order<N: Number>(
    r: Reconciled<N>,
    o: OrderRecord<N>,
    rows: Seq<(String, bool, u64, N)>,
    lots: Entries<Seq<BuyCostLot<N>>>,
    now: u64,
) -> Reconciled<N> {
    let shown = rows_for(rows, o.key(), o.is_buy_order);
    let kept = count_for(r.orders, o.key(), o.is_buy_order);
    if kept < shown.len() {
        matched(r, o, shown[kept as int], now)
    } else if !o.is_buy_order && is_backed(lots, o.key()) {
        Reconciled { orders: r.orders.push(o), ..r }
    } else {
        r
    }
}

/// All tracked orders, reconciled in turn.
pub open spec fn reconcile_orders<N: Number>(
    start: Reconciled<N>,
    orders: Seq<OrderRecord<N>>,
    rows: Seq<(String, bool, u64, N)>,
    lots: Entries<Seq<BuyCostLot<N>>>,
    now: u64,
) -> Reconciled<N>
    decreases orders.len(),
{
    if orders.len() == 0 {
        start
    } else {
        reconcile_order(
            reconcile_orders(start, orders.drop_last(), rows, lots, now),
            orders.last(),
            rows,
            lots,
            now,
        )
    }
}

/// The order that a row stands for is added, less what was collected already.
///
/// A buy order that the held units cover whole is a new one, and its row is taken
/// as it is. A sell order that was collected whole may still be shown and is not
/// added again. A row without an amount adds nothing.
pub open spec fn add_row<N: Number>(
    r: Reconciled<N>,
    name: Seq<char>,
    side: bool,
    row: (u64, N),
    now: u64,
) -> Reconciled<N> {
    let key = match_key(name);
    let already = if side {
        drawn(r.bought, key, row.0)
    } else {
        drawn(r.sold, key, row.0)
    };
    Reconciled {
        orders: if already < row.0 || (side && row.0 > 0) {
            r.orders.push(
                OrderRecord {
                    item_name: name,
                    amount: if already < row.0 {
                        (row.0 - already) as u64
                    } else {
                        row.0
                    },
                    price_per_unit: row.1,
                    is_buy_order: side,
                    status: "open"@,
                    placed_at: now,
                },
            )
        } else {
            r.orders
        },
        bought: if side {
            after_draw(r.bought, key, row.0)
        } else {
            r.bought
        },
        sold: if side {
            r.sold
        } else {
            after_draw(r.sold, key, row.0)
        },
    }
}

/// The rows of an item from `start` up to `end` are added.
pub open spec fn add_rows<N: Number>(
    r: Reconciled<N>,
    rows: Seq<(String, bool, u64, N)>,
    key: Seq<char>,
    side: bool,
    start: nat,
    end: nat,
    now: u64,
) -> Reconciled<N>
    decreases end,
{
    if end <= start {
        r
    } else {
        add_row(
            add_rows(r, rows, key, side, start, (end - 1) as nat, now),
            shown_name(rows, key, side),
            side,
            rows_for(rows, key, side)[end - 1],
            now,
        )
    }
}

/// The row at `i` is the first that counts for its item and side.
pub open spec fn is_first_row<N>(rows: Seq<(String, bool, u64, N)>, i: int) -> bool {
    let key = match_key(rows[i].0@);
    is_row_for(rows[i], key, rows[i].1) && rows_for(rows.take(i), key, rows[i].1).len() == 0
}

/// The rows that no tracked order in `kept` stands for are added, item by item
/// in the order in which the items are first shown; `n` rows are looked at.
pub open spec fn add_untracked<N: Number>(
    r: Reconciled<N>,
    kept: Seq<OrderRecord<N>>,
    rows: Seq<(String, bool, u64, N)>,
    n: nat,
    now: u64,
) -> Reconciled<N>
    decreases n,
{
    if n == 0 {
        r
    } else {
        let before = add_untracked(r, kept, rows, (n - 1) as nat, now);
        let key = match_key(rows[n - 1].0@);
        let side = rows[n - 1].1;
        if is_first_row(rows, n - 1) {
            add_rows(
                before,
                rows,
                key,
                side,
                count_for(kept, key, side),
                rows_for(rows, key, side).len(),
                now,
            )
        } else {
            before
        }
    }
}

/// Entries that still hold units.
pub open spec fn holds_units() -> spec_fn((Seq<char>, u64)) -> bool {
    |e: (Seq<char>, u64)| e.1 > 0
}

impl<N: Number> TrackerState<N> {
    /// The tracked orders that stay.
    pub open spec fn reconciled_orders(
        self,
        rows: Seq<(String, bool, u64, N)>,
        now: u64,
    ) -> Reconciled<N> {
        reconcile_orders(
            Reconciled {
                orders: Seq::empty(),
                bought: unit_counts(self.lots),
                sold: self.sell_fills,
            },
            self.orders,
            rows,
            self.lots,
            now,
        )
    }

    /// The tracked orders that stay, and those that are new.
    pub open spec fn reconciled(
        self,
        rows: Seq<(String, bool, u64, N)>,
        now: u64,
    ) -> Reconciled<N> {
        let kept = self.reconciled_orders(rows, now);
        add_untracked(kept, kept.orders, rows, rows.len(), now)
    }

    pub open spec fn after_reconcile(
        self,
        rows: Seq<(String, bool, u64, N)>,
        now: u64,
    ) -> TrackerState<N> {
        TrackerState {
            orders: self.reconciled(rows, now).orders,
            sell_fills: self.reconciled(rows, now).sold.filter(holds_units()),
            ..self
        }
    }

    /// `removed` orders went and `after` is left.
    pub open spec fn is_reconciled(
        self,
        after: TrackerState<N>,
        removed: int,
        rows: Seq<(String, bool, u64, N)>,
        now: u64,
    ) -> bool {
        &&& after == self.after_reconcile(rows, now)
        &&& removed == self.orders.len() - self.reconciled_orders(rows, now).orders.len()
    }
}

/// A listing with fewer entries lists no name twice.
proof fn filtered_is_distinct(s: Entries<u64>, pred: spec_fn((Seq<char>, u64)) -> bool)
    requires
        distinct(s),
    ensures
        distinct(s.filter(pred)),
        forall|i: int|
            0 <= i < s.filter(pred).len() ==> exists|j: int|
                0 <= j < s.len() && #[trigger] s[j] == #[trigger] s.filter(pred)[i],
    decreases s.len(),
{
    reveal(Seq::filter);
    if s.len() > 0 {
        let rest = s.drop_last();
        let t = s.filter(pred);
        filtered_is_distinct(rest, pred);
        let u = rest.filter(pred);
        assert forall|i: int| 0 <= i < u.len() implies exists|j: int|
            0 <= j < s.len() - 1 && #[trigger] s[j] == #[trigger] u[i] by {
            let j = choose|j: int| 0 <= j < rest.len() && #[trigger] rest[j] == u[i];
            assert(s[j] == u[i]);
        }
        assert forall|i: int, j: int| 0 <= i < j < t.len() implies #[trigger] t[i].0
            != #[trigger] t[j].0 by {
            if j < u.len() {
                assert(u[i].0 != u[j].0);
            } else {
                let k = choose|k: int| 0 <= k < s.len() - 1 && #[trigger] s[k] == u[i];
                assert(s[k].0 != s[s.len() - 1].0);
            }
        }
        assert forall|i: int| 0 <= i < t.len() implies exists|j: int|
            0 <= j < s.len() && #[trigger] s[j] == #[trigger] t[i] by {
            if i == u.len() {
                assert(s[s.len() - 1] == t[i]);
            } else {
                let j = choose|j: int| 0 <= j < s.len() - 1 && #[trigger] s[j] == u[i];
                assert(s[j] == t[i]);
            }
        }
    }
}

/// Draws as many of `amount` units as are listed under `key`.
fn draw(listing: &mut Listing<u64>, key: &str, amount: u64) -> (r: u64)
    ensures
        r == drawn(old(listing)@, key@, amount),
        final(listing)@ == after_draw(old(listing)@, key@, amount),
        distinct(old(listing)@) ==> distinct(final(listing)@),
{
    let i = listing.find(key);
    proof {
        crate::listing::slot_is_first(listing@, key@);
    }
    if i < listing.len() {
        let units = listing.value_at_mut(i);
        let part = if *units <= amount {
            *units
        } else {
            amount
        };
        *units = *units - part;
        proof {
            crate::listing::lookup_after_with_entry(
                old(listing)@,
                key@,
                (lookup(old(listing)@, key@)->0 - part) as u64,
                key@,
            );
        }
        part
    } else {
        0
    }
}

/// Leaves no units under `key`.
fn clear(listing: &mut Listing<u64>, key: &str)
    ensures
        final(listing)@ == cleared(old(listing)@, key@),
        distinct(old(listing)@) ==> distinct(final(listing)@),
{
    let i = listing.find(key);
    proof {
        crate::listing::slot_is_first(listing@, key@);
        crate::listing::lookup_after_with_entry(listing@, key@, 0, key@);
    }
    if i < listing.len() {
        let units = listing.value_at_mut(i);
        *units = 0;
    }
}

/// The entries that still hold units.
fn with_units(listing: Listing<u64>) -> (r: Listing<u64>)
    ensures
        r@ == listing@.filter(holds_units()),
        distinct(listing@) ==> distinct(r@),
{
    let mut out: Listing<u64> = Listing::new();
    let mut i: usize = 0;
    proof {
        reveal(Seq::filter);
        if distinct(listing@) {
            filtered_is_distinct(listing@, holds_units());
        }
    }
    while i < listing.len()
        invariant
            i <= listing@.len(),
            out@ == listing@.take(i as int).filter(holds_units()),
        decreases listing@.len() - i,
    {
        proof {
            filter_one_more(listing@, i as int, holds_units());
        }
        let units = *listing.value_at(i);
        if units > 0 {
            out.push(listing.name_at(i).clone(), units);
        }
        i = i + 1;
    }
    assert(listing@.take(i as int) == listing@);
    out
}

/// The `n`-th row for an item on one side.
fn nth_row<N: Number>(rows: &[(String, bool, u64, N)], key: &str, side: bool, n: usize) -> (r:
    Option<(u64, N)>)
    ensures
        r == (if n < rows_for(rows@, key@, side).len() {
            Some(rows_for(rows@, key@, side)[n as int])
        } else {
            None
        }),
{
    let mut count: usize = 0;
    let mut found: Option<(u64, N)> = None;
    let mut i: usize = 0;
    while i < rows.len()
        invariant
            count <= i <= rows.len(),
            count == rows_for(rows@.take(i as int), key@, side).len(),
            found == (if n < count {
                Some(rows_for(rows@.take(i as int), key@, side)[n as int])
            } else {
                None
            }),
        decreases rows.len() - i,
    {
        assert(rows@.take(i + 1).drop_last() == rows@.take(i as int));
        let row = &rows[i];
        if row.1 == side && (side || row.2 > 0) && same_text(
            normalize_for_match(row.0.as_str()).as_str(),
            key,
        ) {
            if count == n {
                found = Some((row.2, row.3));
            }
            count = count + 1;
        }
        i = i + 1;
    }
    assert(rows@.take(i as int) == rows@);
    found
}

/// How many rows there are for an item on one side, among the first `end`.
fn count_rows<N: Number>(rows: &[(String, bool, u64, N)], end: usize, key: &str, side: bool) -> (r:
    usize)
    requires
        end <= rows.len(),
    ensures
        r == rows_for(rows@.take(end as int), key@, side).len(),
{
    let mut count: usize = 0;
    let mut i: usize = 0;
    while i < end
        invariant
            count <= i <= end <= rows.len(),
            count == rows_for(rows@.take(i as int), key@, side).len(),
        decreases end - i,
    {
        assert(rows@.take(i + 1).drop_last() == rows@.take(i as int));
        let row = &rows[i];
        if row.1 == side && (side || row.2 > 0) && same_text(
            normalize_for_match(row.0.as_str()).as_str(),
            key,
        ) {
            count = count + 1;
        }
        i = i + 1;
    }
    count
}

/// The name under which an item is shown.
fn find_shown_name<N: Number>(rows: &[(String, bool, u64, N)], key: &str, side: bool) -> (r: String)
    ensures
        r@ == shown_name(rows@, key@, side),
{
    let mut i: usize = 0;
    assert(rows@.skip(0) == rows@);
    while i < rows.len()
        invariant
            i <= rows.len(),
            shown_name(rows@, key@, side) == shown_name(rows@.skip(i as int), key@, side),
        decreases rows.len() - i,
    {
        assert(rows@.skip(i as int).drop_first() == rows@.skip(i + 1));
        let row = &rows[i];
        if row.1 == side && same_text(normalize_for_match(row.0.as_str()).as_str(), key) {
            return row.0.clone();
        }
        i = i + 1;
    }
    key.to_string()
}

/// An item with a shown name is known by that name.
pub proof fn shown_name_has_key<N>(rows: Seq<(String, bool, u64, N)>, key: Seq<char>, side: bool)
    requires
        rows_for(rows, key, side).len() > 0,
    ensures
        match_key(shown_name(rows, key, side)) == key,
{
    let i = first_row_exists(rows, key, side);
    shown_name_of_row(rows, key, side, i);
}

/// Where there are rows for an item, one of them is the row of an index.
proof fn first_row_exists<N>(
    rows: Seq<(String, bool, u64, N)>,
    key: Seq<char>,
    side: bool,
) -> (i: int)
    requires
        rows_for(rows, key, side).len() > 0,
    ensures
        0 <= i < rows.len(),
        is_row_for(rows[i], key, side),
        rows_for(rows.take(i), key, side).len() == 0,
    decreases rows.len(),
{
    let rest = rows.drop_last();
    if rows_for(rest, key, side).len() > 0 {
        let i = first_row_exists(rest, key, side);
        assert(rest.take(i) =~= rows.take(i));
        i
    } else {
        assert(rest =~= rows.take(rows.len() - 1));
        rows.len() - 1
    }
}

proof fn shown_name_of_row<N>(
    rows: Seq<(String, bool, u64, N)>,
    key: Seq<char>,
    side: bool,
    i: int,
)
    requires
        0 <= i < rows.len(),
        match_key(rows[i].0@) == key,
        rows[i].1 == side,
    ensures
        match_key(shown_name(rows, key, side)) == key,
    decreases rows.len(),
{
    if !(match_key(rows[0].0@) == key && rows[0].1 == side) {
        assert(rows.drop_first()[i - 1] == rows[i]);
        shown_name_of_row(rows.drop_first(), key, side, i - 1);
    }
}

/// Refreshes an order from the row that stands for it.
fn refresh<N: Number>(o: &TrackedBazaarOrder<N>, amount: u64, price: N, now: u64) -> (r:
    TrackedBazaarOrder<N>)
    ensures
        r@ == refreshed(o@, amount, price, now),
{
    let mut order = o.copy();
    if amount > 0 {
        order.amount = amount;
    }
    if N::from_u64(0).below(price) {
        let cent = N::from_u64(1).over(N::from_u64(100));
        if cent.below(order.price_per_unit.minus(price).magnitude()) {
            order.placed_at = now;
        }
        order.price_per_unit = price;
    }
    order
}

/// The orders while they are reconciled.
struct Reconciling<N> {
    orders: Vec<TrackedBazaarOrder<N>>,
    bought: Listing<u64>,
    sold: Listing<u64>,
}

impl<N> View for Reconciling<N> {
    type V = Reconciled<N>;

    closed spec fn view(&self) -> Reconciled<N> {
        Reconciled {
            orders: order_records(self.orders@),
            bought: self.bought@,
            sold: self.sold@,
        }
    }
}

impl<N: Number> Reconciling<N> {
    fn push(&mut self, order: TrackedBazaarOrder<N>)
        ensures
            final(self)@ == (Reconciled { orders: old(self)@.orders.push(order@), ..old(self)@ }),
    {
        self.orders.push(order);
        assert(order_records(self.orders@) =~= order_records(old(self).orders@).push(order@));
    }

    /// A tracked order meets the row that stands for it.
    fn match_row(&mut self, o: &TrackedBazaarOrder<N>, key: &str, row: (u64, N), now: u64)
        requires
            key@ == o@.key(),
        ensures
            final(self)@ == matched(old(self)@, o@, row, now),
            distinct(old(self)@.sold) ==> distinct(final(self)@.sold),
    {
        let mut open = row.0;
        if o.is_buy_order {
            let already = draw(&mut self.bought, key, row.0);
            open = row.0 - already;
        } else if row.0 > o.amount {
            let already = draw(&mut self.sold, key, row.0 - o.amount);
            open = row.0 - already;
        } else {
            clear(&mut self.sold, key);
        }
        let order = refresh(o, open, row.1, now);
        self.push(order);
    }

    /// A row becomes an order, less what was collected already.
    fn add_row(&mut self, name: &str, key: &str, side: bool, row: (u64, N), now: u64)
        requires
            key@ == match_key(name@),
        ensures
            final(self)@ == add_row(old(self)@, name@, side, row, now),
            distinct(old(self)@.sold) ==> distinct(final(self)@.sold),
    {
        let already = if side {
            draw(&mut self.bought, key, row.0)
        } else {
            draw(&mut self.sold, key, row.0)
        };
        if already < row.0 || (side && row.0 > 0) {
            let order = TrackedBazaarOrder {
                item_name: name.to_string(),
                amount: if already < row.0 {
                    row.0 - already
                } else {
                    row.0
                },
                price_per_unit: row.1,
                is_buy_order: side,
                status: "open".to_string(),
                placed_at: now,
            };
            self.push(order);
        }
    }

    /// Adds the rows of an item from `start` up to `end`.
    fn add_rows(
        &mut self,
        rows: &[(String, bool, u64, N)],
        key: &str,
        side: bool,
        start: usize,
        end: usize,
        now: u64,
    )
        requires
            end == rows_for(rows@, key@, side).len(),
            end > 0,
        ensures
            final(self)@ == add_rows(
                old(self)@,
                rows@,
                key@,
                side,
                start as nat,
                end as nat,
                now,
            ),
            distinct(old(self)@.sold) ==> distinct(final(self)@.sold),
    {
        let name = find_shown_name(rows, key, side);
        proof {
            shown_name_has_key(rows@, key@, side);
        }
        let mut idx: usize = start;
        while idx < end
            invariant
                start <= idx,
                idx <= end || idx == start,
                end == rows_for(rows@, key@, side).len(),
                name@ == shown_name(rows@, key@, side),
                key@ == match_key(name@),
                self@ == add_rows(
                    old(self)@,
                    rows@,
                    key@,
                    side,
                    start as nat,
                    idx as nat,
                    now,
                ),
                distinct(old(self)@.sold) ==> distinct(self@.sold),
            decreases end - idx,
        {
            if let Some(row) = nth_row(rows, key, side, idx) {
                self.add_row(name.as_str(), key, side, row, now);
            }
            idx = idx + 1;
        }
    }
}

impl<N: Number> BazaarOrderTracker<N> {
    /// How many units the lots of each item hold.
    fn lot_units(&self) -> (r: Listing<u64>)
        ensures
            r@ == unit_counts(self@.lots),
    {
        let mut out: Listing<u64> = Listing::new();
        let mut i: usize = 0;
        assert(out@ =~= unit_counts(self@.lots).take(0));
        while i < self.buy_cost_lots.len()
            invariant
                i <= self@.lots.len(),
                out@ == unit_counts(self@.lots).take(i as int),
            decreases self@.lots.len() - i,
        {
            let name = self.buy_cost_lots.name_at(i).clone();
            let units = count_units(self.buy_cost_lots.value_at(i));
            out.push(name, units);
            assert(out@ =~= unit_counts(self@.lots).take(i + 1));
            i = i + 1;
        }
        assert(out@ =~= unit_counts(self@.lots));
        out
    }

    /// Reconciles the tracked orders with those that the bazaar shows at `now`
    /// and returns how many tracked orders went.
    ///
    /// A row is item, side, amount and price. Tracked orders without a row go,
    /// except sell orders of which cost lots are held; every row with an amount
    /// and without a tracked order becomes an order, unless it is a sell order
    /// that was collected already. Of two orders for the same item each needs a row
    /// of its own.
    pub fn reconcile_with_ingame_at(
        &mut self,
        ingame_orders: &[(String, bool, u64, N)],
        now: u64,
    ) -> (removed: usize)
        ensures
            old(self)@.is_reconciled(final(self)@, removed as int, ingame_orders@, now),
            old(self)@.is_valid() ==> final(self)@.is_valid(),
    {
        let ghost start = self@;
        let ghost rows = ingame_orders@;
        let bought = self.lot_units();
        let mut sold: Listing<u64> = Listing::new();
        std::mem::swap(&mut sold, &mut self.recently_collected_sell_fills);
        let mut r = Reconciling { orders: Vec::new(), bought, sold };
        let ghost first = Reconciled {
            orders: Seq::<OrderRecord<N>>::empty(),
            bought: unit_counts(start.lots),
            sold: start.sell_fills,
        };
        assert(r@.orders =~= first.orders);
        let mut i: usize = 0;
        while i < self.orders.len()
            invariant
                i <= self.orders.len(),
                r@.orders.len() <= i,
                rows == ingame_orders@,
                start == old(self)@,
                self@ == (TrackerState { sell_fills: self@.sell_fills, ..start }),
                r@ == reconcile_orders(first, start.orders.take(i as int), rows, start.lots, now),
                start.is_valid() ==> distinct(r@.sold),
            decreases self.orders.len() - i,
        {
            let o = &self.orders[i];
            assert(start.orders.take(i + 1).drop_last() =~= start.orders.take(i as int));
            assert(start.orders.take(i + 1).last() == o@);
            let key = normalize_for_match(o.item_name.as_str());
            let kept = count_first_orders(
                &r.orders,
                r.orders.len(),
                key.as_str(),
                o.is_buy_order,
            );
            assert(r@.orders.take(r.orders.len() as int) =~= r@.orders);
            match nth_row(ingame_orders, key.as_str(), o.is_buy_order, kept) {
                Some(row) => {
                    r.match_row(o, key.as_str(), row, now);
                },
                None => {
                    let backed = match self.buy_cost_lots.get(key.as_str()) {
                        Some(lots) => count_units(lots) > 0,
                        None => false,
                    };
                    if !o.is_buy_order && backed {
                        r.push(o.copy());
                    }
                },
            }
            i = i + 1;
        }
        assert(start.orders.take(i as int) =~= start.orders);
        let removed = self.orders.len() - r.orders.len();
        let ghost kept = r@;
        assert(kept == start.reconciled_orders(rows, now));
        let kept_len = r.orders.len();
        assert(r@.orders.take(kept_len as int) =~= kept.orders);
        let mut n: usize = 0;
        while n < ingame_orders.len()
            invariant
                n <= ingame_orders.len(),
                rows == ingame_orders@,
                kept_len == kept.orders.len(),
                kept_len <= r.orders.len(),
                r@.orders.take(kept_len as int) == kept.orders,
                r@ == add_untracked(kept, kept.orders, rows, n as nat, now),
                start.is_valid() ==> distinct(r@.sold),
            decreases ingame_orders.len() - n,
        {
            let row = &ingame_orders[n];
            let side = row.1;
            let key = normalize_for_match(row.0.as_str());
            if (side || row.2 > 0) && count_rows(ingame_orders, n, key.as_str(), side) == 0 {
                let have = count_first_orders(&r.orders, kept_len, key.as_str(), side);
                let shown = count_rows(ingame_orders, ingame_orders.len(), key.as_str(), side);
                proof {
                    assert(rows.take(rows.len() as int) =~= rows);
                    rows_of_prefix(rows, n + 1, key@, side);
                    assert(rows.take(n + 1).drop_last() =~= rows.take(n as int));
                    added_rows_come_last(
                        r@,
                        rows,
                        key@,
                        side,
                        have as nat,
                        shown as nat,
                        now,
                    );
                }
                let ghost before = r@;
                r.add_rows(ingame_orders, key.as_str(), side, have, shown, now);
                assert(r@.orders.take(kept_len as int) =~= r@.orders.take(
                    before.orders.len() as int,
                ).take(kept_len as int));
            }
            n = n + 1;
        }
        self.orders = r.orders;
        self.recently_collected_sell_fills = with_units(r.sold);
        removed
    }

    /// Reconciles the tracked orders with those that the bazaar shows and
    /// returns how many tracked orders went.
    pub fn reconcile_with_ingame(&mut self, ingame_orders: &[(String, bool, u64, N)]) -> (removed:
        usize)
        ensures
            exists|now: u64|
                #[trigger] old(self)@.is_reconciled(
                    final(self)@,
                    removed as int,
                    ingame_orders@,
                    now,
                ),
            old(self)@.is_valid() ==> final(self)@.is_valid(),
    {
        let now = Self::now_secs();
        self.reconcile_with_ingame_at(ingame_orders, now)
    }
}

/// How many of the first `end` orders are for an item on one side.
fn count_first_orders<N: Number>(
    orders: &Vec<TrackedBazaarOrder<N>>,
    end: usize,
    key: &str,
    side: bool,
) -> (r: usize)
    requires
        end <= orders.len(),
    ensures
        r == count_for(order_records(orders@).take(end as int), key@, side),
{
    let ghost all = order_records(orders@);
    let ghost pred = for_item::<N>(key@, side);
    let mut count: usize = 0;
    let mut i: usize = 0;
    proof {
        reveal(Seq::filter);
    }
    while i < end
        invariant
            count <= i <= end <= orders.len(),
            all == order_records(orders@),
            pred == for_item::<N>(key@, side),
            count == all.take(i as int).filter(pred).len(),
        decreases end - i,
    {
        proof {
            filter_one_more(all, i as int, pred);
        }
        if orders[i].is_for(key, side) {
            count = count + 1;
        }
        i = i + 1;
    }
    count
}

/// The rows of the first `n` rows are the first rows of an item.
pub proof fn rows_of_prefix<N>(rows: Seq<(String, bool, u64, N)>, n: int, key: Seq<char>, side: bool)
    requires
        0 <= n <= rows.len(),
    ensures
        rows_for(rows.take(n), key, side).len() <= rows_for(rows, key, side).len(),
    decreases rows.len() - n,
{
    if n < rows.len() {
        rows_of_prefix(rows, n + 1, key, side);
        assert(rows.take(n + 1).drop_last() =~= rows.take(n));
    } else {
        assert(rows.take(n) =~= rows);
    }
}

/// Added orders come after the others.
proof fn added_rows_come_last<N: Number>(
    r: Reconciled<N>,
    rows: Seq<(String, bool, u64, N)>,
    key: Seq<char>,
    side: bool,
    start: nat,
    end: nat,
    now: u64,
)
    ensures
        r.orders.len() <= add_rows(r, rows, key, side, start, end, now).orders.len(),
        add_rows(r, rows, key, side, start, end, now).orders.take(r.orders.len() as int)
            == r.orders,
    decreases end,
{
    if start < end {
        added_rows_come_last(r, rows, key, side, start, (end - 1) as nat, now);
        let before = add_rows(r, rows, key, side, start, (end - 1) as nat, now);
        let after = add_rows(r, rows, key, side, start, end, now);
        assert(after.orders.take(r.orders.len() as int) =~= before.orders.take(
            r.orders.len() as int,
        ));
    } else {
        assert(r.orders.take(r.orders.len() as int) =~= r.orders);
    }
}

} // verus!
