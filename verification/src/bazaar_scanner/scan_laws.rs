//! What holds of the flips that a scan returns.

use vstd::prelude::*;
use vstd::string::*;

use crate::bazaar_scanner::config::LocalBazaarScanConfig;
use crate::bazaar_scanner::flips::{flip_records, market_record, FlipRecord, Prospect};
use crate::bazaar_scanner::history::{market_records, recent, reliability};
use crate::bazaar_scanner::market::{tags_are_distinct, BazaarProduct};
use crate::bazaar_scanner::risk::RejectReason;
use crate::bazaar_scanner::scan::{
    active_capital_of, active_share_limit, all_notes, best_of, capital_budget, capital_sum,
    history_cutoff, is_report_of, over_budget, ranking, ranks_above, reserve_is_usable, scan_block,
    scan_product, scan_products, summary_of, useful_limit, with_ranked, within_budget, ScanRecord,
    ScanReport,
};
use crate::bazaar_scanner::screening::{
    figures_of, is_classic_flip, liquidity_notes, screen_reason,
};
use crate::listing::lookup;
use crate::number::{clamped, clamped_stays_within, ratio, Number, OrderedNumber};

verus! {

/// No flip stands behind one that it ranks above.
pub open spec fn is_ranked<N: Number>(flips: Seq<FlipRecord<N>>) -> bool {
    forall|i: int, j: int|
        0 <= i < j < flips.len() ==> !ranks_above(#[trigger] flips[j], #[trigger] flips[i])
}

/// The figures that a flip is ranked by are defined: each is at most itself.
pub open spec fn has_rank<N: Number>(flip: FlipRecord<N>) -> bool {
    &&& flip.risk_adjusted_expected_profit_per_hour.spec_at_most(
        flip.risk_adjusted_expected_profit_per_hour,
    )
    &&& flip.volume_value_hour.spec_at_most(flip.volume_value_hour)
    &&& flip.roi_after_tax.spec_at_most(flip.roi_after_tax)
}

proof fn ranks_above_is_asymmetric<N: Number>(a: FlipRecord<N>, b: FlipRecord<N>)
    ensures
        ranks_above(a, b) ==> !ranks_above(b, a),
{
    N::below_is_asymmetric(
        b.risk_adjusted_expected_profit_per_hour,
        a.risk_adjusted_expected_profit_per_hour,
    );
    N::below_is_asymmetric(b.volume_value_hour, a.volume_value_hour);
    N::below_is_asymmetric(b.roi_after_tax, a.roi_after_tax);
}

proof fn figures_are_in_order<N: Number>(a: N, b: N, c: N)
    requires
        a.spec_at_most(a),
        b.spec_at_most(b),
        c.spec_at_most(c),
    ensures
        c.spec_below(a) ==> c.spec_below(b) || b.spec_below(a),
        a.spec_below(b) ==> a.spec_below(c) || c.spec_below(b),
        b.spec_below(c) ==> b.spec_below(a) || a.spec_below(c),
{
    N::below_is_cotransitive(c, b, a);
    N::below_is_cotransitive(a, c, b);
    N::below_is_cotransitive(b, a, c);
}

/// A flip that ranks above another ranks above every flip between them, or that
/// flip ranks above the other.
proof fn ranks_above_is_cotransitive<N: Number>(
    a: FlipRecord<N>,
    b: FlipRecord<N>,
    c: FlipRecord<N>,
)
    requires
        has_rank(a),
        has_rank(b),
        has_rank(c),
    ensures
        ranks_above(a, c) ==> ranks_above(a, b) || ranks_above(b, c),
{
    figures_are_in_order(
        a.risk_adjusted_expected_profit_per_hour,
        b.risk_adjusted_expected_profit_per_hour,
        c.risk_adjusted_expected_profit_per_hour,
    );
    figures_are_in_order(a.volume_value_hour, b.volume_value_hour, c.volume_value_hour);
    figures_are_in_order(a.roi_after_tax, b.roi_after_tax, c.roi_after_tax);
}

proof fn insertion_keeps_ranking<N: Number>(ranked: Seq<FlipRecord<N>>, flip: FlipRecord<N>)
    requires
        is_ranked(ranked),
        has_rank(flip),
        forall|i: int| 0 <= i < ranked.len() ==> has_rank(#[trigger] ranked[i]),
    ensures
        is_ranked(with_ranked(ranked, flip)),
        with_ranked(ranked, flip).len() == ranked.len() + 1,
        forall|k: int|
            0 <= k < with_ranked(ranked, flip).len() ==> #[trigger] with_ranked(ranked, flip)[k]
                == flip || ranked.contains(with_ranked(ranked, flip)[k]),
        forall|k: int|
            0 <= k < with_ranked(ranked, flip).len() ==> has_rank(
                #[trigger] with_ranked(ranked, flip)[k],
            ),
    decreases ranked.len(),
{
    let out = with_ranked(ranked, flip);
    let n = ranked.len() as int;
    if ranked.len() == 0 {
        assert(out.len() == 1);
    } else if !ranks_above(flip, ranked.last()) {
        assert(has_rank(ranked[n - 1]));
        assert forall|k: int| 0 <= k < out.len() implies (#[trigger] out[k] == flip
            || ranked.contains(out[k])) && has_rank(out[k]) by {
            if k < n {
                assert(out[k] == ranked[k]);
            }
        }
        assert forall|i: int, j: int| 0 <= i < j < out.len() implies !ranks_above(
            #[trigger] out[j],
            #[trigger] out[i],
        ) by {
            assert(out[i] == ranked[i]);
            if j < n {
                assert(out[j] == ranked[j]);
            } else {
                ranks_above_is_cotransitive(flip, ranked[n - 1], ranked[i]);
                if i < n - 1 {
                    assert(!ranks_above(ranked[n - 1], ranked[i]));
                }
            }
        }
    } else {
        let rest = ranked.drop_last();
        let last = ranked[n - 1];
        assert forall|i: int| 0 <= i < rest.len() implies has_rank(#[trigger] rest[i]) by {
            assert(rest[i] == ranked[i]);
        }
        assert forall|i: int, j: int| 0 <= i < j < rest.len() implies !ranks_above(
            #[trigger] rest[j],
            #[trigger] rest[i],
        ) by {
            assert(!ranks_above(ranked[j], ranked[i]));
        }
        insertion_keeps_ranking(rest, flip);
        let inner = with_ranked(rest, flip);
        ranks_above_is_asymmetric(flip, last);
        assert forall|k: int| 0 <= k < out.len() implies (#[trigger] out[k] == flip
            || ranked.contains(out[k])) && has_rank(out[k]) by {
            if k < inner.len() {
                assert(out[k] == inner[k]);
                if inner[k] != flip {
                    let m = choose|m: int| 0 <= m < rest.len() && rest[m] == inner[k];
                    assert(ranked[m] == out[k]);
                }
            } else {
                assert(out[k] == last);
            }
        }
        assert forall|i: int, j: int| 0 <= i < j < out.len() implies !ranks_above(
            #[trigger] out[j],
            #[trigger] out[i],
        ) by {
            assert(out[i] == inner[i]);
            if j < inner.len() {
                assert(out[j] == inner[j]);
            } else if inner[i] != flip {
                let m = choose|m: int| 0 <= m < rest.len() && rest[m] == inner[i];
                assert(ranked[m] == inner[i]);
                assert(!ranks_above(ranked[n - 1], ranked[m]));
            }
        }
    }
}

/// The ranking is in order: no flip stands behind one that it ranks above.
pub proof fn ranking_is_in_order<N: Number>(flips: Seq<FlipRecord<N>>)
    requires
        forall|i: int| 0 <= i < flips.len() ==> has_rank(#[trigger] flips[i]),
    ensures
        is_ranked(ranking(flips)),
        ranking(flips).len() == flips.len(),
        forall|i: int| 0 <= i < ranking(flips).len() ==> has_rank(#[trigger] ranking(flips)[i]),
    decreases flips.len(),
{
    if flips.len() > 0 {
        let rest = flips.drop_last();
        assert forall|i: int| 0 <= i < rest.len() implies has_rank(#[trigger] rest[i]) by {
            assert(rest[i] == flips[i]);
        }
        ranking_is_in_order(rest);
        assert(has_rank(flips[flips.len() - 1]));
        insertion_keeps_ranking(ranking(rest), flips.last());
    }
}

proof fn insertion_adds_one<N: Number>(ranked: Seq<FlipRecord<N>>, flip: FlipRecord<N>)
    ensures
        with_ranked(ranked, flip).to_multiset() == ranked.to_multiset().insert(flip),
    decreases ranked.len(),
{
    broadcast use vstd::seq_lib::group_to_multiset_ensures;

    if ranked.len() > 0 && ranks_above(flip, ranked.last()) {
        let rest = ranked.drop_last();
        insertion_adds_one(rest, flip);
        assert(rest.push(ranked.last()) =~= ranked);
        assert(ranked.to_multiset() =~= rest.to_multiset().insert(ranked.last()));
        assert(with_ranked(ranked, flip).to_multiset() =~= ranked.to_multiset().insert(flip));
    }
}

/// Ranking loses no flip and adds none.
pub proof fn ranking_keeps_flips<N: Number>(flips: Seq<FlipRecord<N>>)
    ensures
        ranking(flips).to_multiset() == flips.to_multiset(),
    decreases flips.len(),
{
    broadcast use vstd::seq_lib::group_to_multiset_ensures;

    if flips.len() > 0 {
        let rest = flips.drop_last();
        ranking_keeps_flips(rest);
        insertion_adds_one(ranking(rest), flips.last());
        assert(rest.push(flips.last()) =~= flips);
        assert(flips.to_multiset() =~= rest.to_multiset().insert(flips.last()));
    } else {
        assert(ranking(flips) =~= flips);
    }
}

/// The flips that are kept never take more capital together than the budget,
/// however many of them are taken from the first on.
pub proof fn budget_is_kept<N: Number>(flips: Seq<FlipRecord<N>>, budget: N, n: int)
    requires
        0 < n <= within_budget(flips, budget).len(),
    ensures
        within_budget(flips, budget).len() <= flips.len(),
        !budget.spec_below(capital_sum(within_budget(flips, budget).take(n))),
    decreases flips.len(),
{
    let rest = flips.drop_last();
    let before = within_budget(rest, budget);
    let kept = within_budget(flips, budget);
    if n <= before.len() {
        budget_is_kept(rest, budget, n);
        assert(kept.take(n) =~= before.take(n));
    } else {
        kept_are_no_more(rest, budget);
        assert(kept.take(n) =~= before.push(flips.last()));
        assert(before.push(flips.last()).drop_last() =~= before);
    }
}

proof fn kept_are_no_more<N: Number>(flips: Seq<FlipRecord<N>>, budget: N)
    ensures
        within_budget(flips, budget).len() <= flips.len(),
    decreases flips.len(),
{
    if flips.len() > 0 {
        kept_are_no_more(flips.drop_last(), budget);
    }
}

/// The flips that a scan returns never take more capital together than the
/// budget.
pub proof fn returned_flips_keep_the_budget<N: Number>(
    candidates: Seq<FlipRecord<N>>,
    limit: usize,
    config: LocalBazaarScanConfig<N>,
)
    requires
        best_of(candidates, limit, config).len() > 0,
    ensures
        !capital_budget(limit, config).spec_below(
            capital_sum(best_of(candidates, limit, config)),
        ),
{
    let kept = within_budget(ranking(candidates), capital_budget(limit, config));
    let best = best_of(candidates, limit, config);
    budget_is_kept(ranking(candidates), capital_budget(limit, config), best.len() as int);
    assert(kept.take(best.len() as int) =~= best);
}

proof fn kept_within_budget_is_ranked<N: Number>(flips: Seq<FlipRecord<N>>, budget: N, i: int)
    requires
        0 <= i < within_budget(flips, budget).len(),
    ensures
        flips.contains(within_budget(flips, budget)[i]),
    decreases flips.len(),
{
    if flips.len() > 0 {
        let rest = flips.drop_last();
        let before = within_budget(rest, budget);
        let kept = within_budget(flips, budget);
        if i < before.len() {
            kept_within_budget_is_ranked(rest, budget, i);
            let j = choose|j: int| 0 <= j < rest.len() && rest[j] == before[i];
            assert(flips[j] == kept[i]);
        } else {
            assert(flips[flips.len() - 1] == kept[i]);
        }
    }
}

proof fn budget_keeps_order<N: Number>(flips: Seq<FlipRecord<N>>, budget: N)
    requires
        is_ranked(flips),
    ensures
        is_ranked(within_budget(flips, budget)),
    decreases flips.len(),
{
    if flips.len() > 0 {
        let rest = flips.drop_last();
        assert forall|i: int, j: int| 0 <= i < j < rest.len() implies !ranks_above(
            #[trigger] rest[j],
            #[trigger] rest[i],
        ) by {
            assert(!ranks_above(flips[j], flips[i]));
        }
        budget_keeps_order(rest, budget);
        let before = within_budget(rest, budget);
        let kept = within_budget(flips, budget);
        assert forall|i: int, j: int| 0 <= i < j < kept.len() implies !ranks_above(
            #[trigger] kept[j],
            #[trigger] kept[i],
        ) by {
            assert(kept[i] == before[i]);
            if j < before.len() {
                assert(kept[j] == before[j]);
            } else {
                kept_within_budget_is_ranked(rest, budget, i);
                let m = choose|m: int| 0 <= m < rest.len() && rest[m] == before[i];
                assert(!ranks_above(flips[flips.len() - 1], flips[m]));
            }
        }
    }
}

/// The flips that a scan returns are in order: none stands behind one that it
/// ranks above.
pub proof fn best_are_in_order<N: Number>(
    candidates: Seq<FlipRecord<N>>,
    limit: usize,
    config: LocalBazaarScanConfig<N>,
)
    requires
        forall|i: int| 0 <= i < candidates.len() ==> has_rank(#[trigger] candidates[i]),
    ensures
        is_ranked(best_of(candidates, limit, config)),
{
    ranking_is_in_order(candidates);
    let kept = within_budget(ranking(candidates), capital_budget(limit, config));
    budget_keeps_order(ranking(candidates), capital_budget(limit, config));
    let best = best_of(candidates, limit, config);
    assert forall|i: int, j: int| 0 <= i < j < best.len() implies !ranks_above(
        #[trigger] best[j],
        #[trigger] best[i],
    ) by {
        assert(best[i] == kept[i] && best[j] == kept[j]);
    }
}

/// A scan returns at most as many flips as asked for, or as there may be items,
/// and each of them is a candidate.
pub proof fn best_are_candidates<N: Number>(
    candidates: Seq<FlipRecord<N>>,
    limit: usize,
    config: LocalBazaarScanConfig<N>,
    i: int,
)
    ensures
        best_of(candidates, limit, config).len() <= useful_limit(limit, config),
        0 <= i < best_of(candidates, limit, config).len() ==> candidates.contains(
            best_of(candidates, limit, config)[i],
        ),
{
    broadcast use vstd::seq_lib::group_to_multiset_ensures;

    let ranked = ranking(candidates);
    let kept = within_budget(ranked, capital_budget(limit, config));
    if 0 <= i < best_of(candidates, limit, config).len() {
        kept_within_budget_is_ranked(ranked, capital_budget(limit, config), i);
        ranking_keeps_flips(candidates);
        assert(ranked.to_multiset().count(kept[i]) > 0);
        assert(candidates.to_multiset().count(kept[i]) > 0);
    }
}

/// Every candidate earns something per unit after tax.
pub proof fn candidates_are_profitable<N: Number>(
    start: ScanRecord<N>,
    products: Seq<(String, BazaarProduct<N>)>,
    config: LocalBazaarScanConfig<N>,
    timestamp: u64,
    i: int,
)
    requires
        start.candidates.len() == 0,
        0 <= i < scan_products(start, products, config, timestamp).candidates.len(),
    ensures
        !scan_products(
            start,
            products,
            config,
            timestamp,
        ).candidates[i].profit_per_unit.spec_at_most(N::whole(0)),
    decreases products.len(),
{
    if products.len() > 0 {
        let before = scan_products(start, products.drop_last(), config, timestamp);
        if i < before.candidates.len() {
            candidates_are_profitable(start, products.drop_last(), config, timestamp, i);
        }
    }
}

/// A product that is left out at first sight leaves no trace in the history.
pub proof fn screened_products_leave_history<N: Number>(
    r: ScanRecord<N>,
    tag: Seq<char>,
    product: BazaarProduct<N>,
    config: LocalBazaarScanConfig<N>,
    timestamp: u64,
)
    requires
        screen_reason(tag, product, config) is Some,
    ensures
        scan_product(r, tag, product, config, timestamp).history == r.history,
        scan_product(r, tag, product, config, timestamp).candidates == r.candidates,
{
}

/// No two flips are of the same product.
pub open spec fn has_distinct_tags<N>(flips: Seq<FlipRecord<N>>) -> bool {
    forall|i: int, j: int|
        0 <= i < j < flips.len() ==> (#[trigger] flips[i]).item_tag != (#[trigger] flips[j]).item_tag
}

proof fn candidates_are_products<N: Number>(
    start: ScanRecord<N>,
    products: Seq<(String, BazaarProduct<N>)>,
    config: LocalBazaarScanConfig<N>,
    timestamp: u64,
)
    requires
        start.candidates.len() == 0,
        tags_are_distinct(products),
    ensures
        ({
            let found = scan_products(start, products, config, timestamp).candidates;
            &&& has_distinct_tags(found)
            &&& forall|i: int|
                0 <= i < found.len() ==> exists|j: int|
                    0 <= j < products.len() && (#[trigger] products[j]).0@ == (
                    #[trigger] found[i]).item_tag
        }),
    decreases products.len(),
{
    if products.len() > 0 {
        let rest = products.drop_last();
        let n = products.len() - 1;
        assert forall|i: int, j: int| 0 <= i < j < rest.len() implies (#[trigger] rest[i]).0@ != (
        #[trigger] rest[j]).0@ by {
            assert(products[i].0@ != products[j].0@);
        }
        candidates_are_products(start, rest, config, timestamp);
        let before = scan_products(start, rest, config, timestamp).candidates;
        let found = scan_products(start, products, config, timestamp).candidates;
        assert(found.len() > before.len() ==> found =~= before.push(found.last())
            && found.last().item_tag == products[n].0@);
        assert(found.len() <= before.len() ==> found =~= before);
        assert forall|i: int| 0 <= i < before.len() implies exists|j: int|
            0 <= j < n && (#[trigger] products[j]).0@ == (#[trigger] before[i]).item_tag by {
            let j = choose|j: int| 0 <= j < rest.len() && (#[trigger] rest[j]).0@ == before[i].item_tag;
            assert(products[j].0@ == before[i].item_tag);
        }
        assert forall|i: int| 0 <= i < found.len() implies exists|j: int|
            0 <= j < products.len() && (#[trigger] products[j]).0@ == (
            #[trigger] found[i]).item_tag by {
            if i < before.len() {
                assert(found[i] == before[i]);
            } else {
                assert(products[n].0@ == found[i].item_tag);
            }
        }
        assert forall|i: int, j: int| 0 <= i < j < found.len() implies (
        #[trigger] found[i]).item_tag != (#[trigger] found[j]).item_tag by {
            assert(found[i] == before[i]);
            if j < before.len() {
                assert(found[j] == before[j]);
            } else {
                let k = choose|k: int| 0 <= k < n && (#[trigger] products[k]).0@ == before[i].item_tag;
                assert(products[k].0@ != products[n].0@);
            }
        }
    }
}

proof fn insertion_keeps_tags_distinct<N: Number>(ranked: Seq<FlipRecord<N>>, flip: FlipRecord<N>)
    requires
        has_distinct_tags(ranked),
        forall|i: int| 0 <= i < ranked.len() ==> (#[trigger] ranked[i]).item_tag != flip.item_tag,
    ensures
        has_distinct_tags(with_ranked(ranked, flip)),
        forall|k: int|
            0 <= k < with_ranked(ranked, flip).len() ==> #[trigger] with_ranked(ranked, flip)[k]
                == flip || ranked.contains(with_ranked(ranked, flip)[k]),
    decreases ranked.len(),
{
    let out = with_ranked(ranked, flip);
    let n = ranked.len() as int;
    if ranked.len() == 0 || !ranks_above(flip, ranked.last()) {
        assert forall|k: int| 0 <= k < out.len() implies #[trigger] out[k] == flip
            || ranked.contains(out[k]) by {
            if k < n {
                assert(out[k] == ranked[k]);
            }
        }
        assert forall|i: int, j: int| 0 <= i < j < out.len() implies (
        #[trigger] out[i]).item_tag != (#[trigger] out[j]).item_tag by {
            assert(out[i] == ranked[i]);
            if j < n {
                assert(out[j] == ranked[j]);
            }
        }
    } else {
        let rest = ranked.drop_last();
        let last = ranked[n - 1];
        assert forall|i: int| 0 <= i < rest.len() implies (#[trigger] rest[i]).item_tag
            != flip.item_tag by {
            assert(rest[i] == ranked[i]);
        }
        assert forall|i: int, j: int| 0 <= i < j < rest.len() implies (
        #[trigger] rest[i]).item_tag != (#[trigger] rest[j]).item_tag by {
            assert(ranked[i].item_tag != ranked[j].item_tag);
        }
        insertion_keeps_tags_distinct(rest, flip);
        let inner = with_ranked(rest, flip);
        assert forall|k: int| 0 <= k < out.len() implies #[trigger] out[k] == flip
            || ranked.contains(out[k]) by {
            if k < inner.len() {
                assert(out[k] == inner[k]);
                if inner[k] != flip {
                    let m = choose|m: int| 0 <= m < rest.len() && rest[m] == inner[k];
                    assert(ranked[m] == out[k]);
                }
            } else {
                assert(out[k] == last);
            }
        }
        assert forall|i: int, j: int| 0 <= i < j < out.len() implies (
        #[trigger] out[i]).item_tag != (#[trigger] out[j]).item_tag by {
            assert(out[i] == inner[i]);
            if j < inner.len() {
                assert(out[j] == inner[j]);
            } else if inner[i] != flip {
                let m = choose|m: int| 0 <= m < rest.len() && rest[m] == inner[i];
                assert(ranked[m].item_tag != ranked[n - 1].item_tag);
            }
        }
    }
}

proof fn ranking_keeps_tags_distinct<N: Number>(flips: Seq<FlipRecord<N>>)
    requires
        has_distinct_tags(flips),
    ensures
        has_distinct_tags(ranking(flips)),
        forall|i: int| 0 <= i < ranking(flips).len() ==> flips.contains(#[trigger] ranking(flips)[i]),
    decreases flips.len(),
{
    if flips.len() > 0 {
        let rest = flips.drop_last();
        let last = flips[flips.len() - 1];
        assert forall|i: int, j: int| 0 <= i < j < rest.len() implies (
        #[trigger] rest[i]).item_tag != (#[trigger] rest[j]).item_tag by {
            assert(flips[i].item_tag != flips[j].item_tag);
        }
        ranking_keeps_tags_distinct(rest);
        let before = ranking(rest);
        assert forall|i: int| 0 <= i < before.len() implies (#[trigger] before[i]).item_tag
            != last.item_tag by {
            let m = choose|m: int| 0 <= m < rest.len() && rest[m] == before[i];
            assert(flips[m].item_tag != flips[flips.len() - 1].item_tag);
        }
        insertion_keeps_tags_distinct(before, last);
        let out = ranking(flips);
        assert forall|i: int| 0 <= i < out.len() implies flips.contains(#[trigger] out[i]) by {
            if out[i] == last {
                assert(flips[flips.len() - 1] == out[i]);
            } else {
                let k = choose|k: int| 0 <= k < before.len() && before[k] == out[i];
                assert(rest.contains(before[k]));
                let m = choose|m: int| 0 <= m < rest.len() && rest[m] == before[k];
                assert(flips[m] == out[i]);
            }
        }
    }
}

proof fn budget_keeps_tags_distinct<N: Number>(flips: Seq<FlipRecord<N>>, budget: N)
    requires
        has_distinct_tags(flips),
    ensures
        has_distinct_tags(within_budget(flips, budget)),
    decreases flips.len(),
{
    if flips.len() > 0 {
        let rest = flips.drop_last();
        assert forall|i: int, j: int| 0 <= i < j < rest.len() implies (
        #[trigger] rest[i]).item_tag != (#[trigger] rest[j]).item_tag by {
            assert(flips[i].item_tag != flips[j].item_tag);
        }
        budget_keeps_tags_distinct(rest, budget);
        let before = within_budget(rest, budget);
        let kept = within_budget(flips, budget);
        assert forall|i: int, j: int| 0 <= i < j < kept.len() implies (
        #[trigger] kept[i]).item_tag != (#[trigger] kept[j]).item_tag by {
            assert(kept[i] == before[i]);
            if j < before.len() {
                assert(kept[j] == before[j]);
            } else {
                kept_within_budget_is_ranked(rest, budget, i);
                let m = choose|m: int| 0 <= m < rest.len() && rest[m] == before[i];
                assert(flips[m].item_tag != flips[flips.len() - 1].item_tag);
            }
        }
    }
}

/// A scan of a market in which no product stands twice returns no two flips of
/// the same product.
pub proof fn returned_flips_are_of_different_products<N: Number>(
    start: ScanRecord<N>,
    products: Seq<(String, BazaarProduct<N>)>,
    limit: usize,
    config: LocalBazaarScanConfig<N>,
    timestamp: u64,
)
    requires
        start.candidates.len() == 0,
        tags_are_distinct(products),
    ensures
        has_distinct_tags(
            best_of(
                scan_products(start, products, config, timestamp).candidates,
                limit,
                config,
            ),
        ),
{
    let found = scan_products(start, products, config, timestamp).candidates;
    candidates_are_products(start, products, config, timestamp);
    ranking_keeps_tags_distinct(found);
    budget_keeps_tags_distinct(ranking(found), capital_budget(limit, config));
    let kept = within_budget(ranking(found), capital_budget(limit, config));
    let best = best_of(found, limit, config);
    assert forall|i: int, j: int| 0 <= i < j < best.len() implies (#[trigger] best[i]).item_tag != (
    #[trigger] best[j]).item_tag by {
        assert(best[i] == kept[i] && best[j] == kept[j]);
    }
}

/// Between a twentieth and what the reserve leaves, the configured part of the
/// capital is active; a smaller part counts as a twentieth and a larger one as
/// what the reserve leaves. The reserve keeps at most 95 percent back.
pub proof fn the_reserve_stays_idle<N: OrderedNumber>(config: LocalBazaarScanConfig<N>)
    requires
        reserve_is_usable(config),
    ensures
        ({
            let left = N::whole(1).spec_minus(
                clamped(config.reserve_ratio, N::whole(0), ratio(95, 100)),
            );
            let part = config.active_capital_ratio;
            let capital = N::whole(config.total_capital);
            let active = active_capital_of(config);
            &&& !part.spec_below(ratio(5, 100)) && !left.spec_below(part) ==> active
                == capital.spec_times(part).spec_larger(N::whole(0))
            &&& part.spec_below(ratio(5, 100)) ==> active == capital.spec_times(
                ratio(5, 100),
            ).spec_larger(N::whole(0))
            &&& left.spec_below(part) && !part.spec_below(ratio(5, 100)) ==> active
                == capital.spec_times(left).spec_larger(N::whole(0))
        }),
{
    let left = N::whole(1).spec_minus(
        clamped(config.reserve_ratio, N::whole(0), ratio(95, 100)),
    );
    N::below_is_defined(ratio(5, 100), left);
    N::at_most_is_not_above(ratio(5, 100), left);
    clamped_stays_within(config.active_capital_ratio, ratio(5, 100), left);
}

/// The reserve is usable when what it leaves of one is at least a twentieth.
pub proof fn usable_reserves_leave_a_twentieth<N: Number>(config: LocalBazaarScanConfig<N>)
    ensures
        reserve_is_usable(config) <==> N::whole(5).spec_over(N::whole(100)).spec_at_most(
            N::whole(1).spec_minus(
                clamped(
                    config.reserve_ratio,
                    N::whole(0),
                    N::whole(95).spec_over(N::whole(100)),
                ),
            ),
        ),
{
}

/// The active capital is never negative.
pub proof fn active_capital_is_not_negative<N: OrderedNumber>(config: LocalBazaarScanConfig<N>)
    ensures
        !active_capital_of(config).spec_below(N::whole(0)),
{
    N::larger_is_greatest(
        N::whole(config.total_capital).spec_times(
            clamped(
                config.active_capital_ratio,
                ratio(5, 100),
                active_share_limit(config),
            ),
        ),
        N::whole(0),
    );
}

/// A scan is made exactly when the lots and the open buys stay within their
/// shares of the capital, more inventory slots are free than must be, fewer buys
/// are active than may be, and not more sells are active than twice as many, or
/// four.
pub proof fn scans_are_made_within_limits<N: Number>(config: LocalBazaarScanConfig<N>)
    requires
        config.max_pending_buy_stacks * 2 <= u64::MAX,
    ensures
        ({
            let capital = N::whole(config.total_capital);
            let least = N::whole(5).spec_over(N::whole(100));
            let lots_exceed = config.total_capital > 0 && capital.spec_times(
                clamped(config.max_cost_lot_capital_ratio, least, N::whole(1)),
            ).spec_below(config.total_cost_lot_value);
            let buys_exceed = config.total_capital > 0 && capital.spec_times(
                clamped(config.max_open_buy_capital_ratio, least, N::whole(1)),
            ).spec_below(config.open_buy_capital);
            let full = config.inventory_free_slots <= config.min_free_inventory_slots;
            let buying = config.active_buy_order_count >= config.max_pending_buy_stacks;
            let selling = config.active_sell_order_count > 4 && config.active_sell_order_count > 2
                * config.max_pending_buy_stacks;
            let reason = scan_block(config);
            &&& reason is None <==> !lots_exceed && !buys_exceed && !full && !buying && !selling
            &&& lots_exceed <==> reason == Some(RejectReason::TooMuchOpenCostBasis)
            &&& !lots_exceed && buys_exceed <==> reason == Some(RejectReason::TooMuchOpenCapital)
            &&& !lots_exceed && !buys_exceed && full <==> reason == Some(
                RejectReason::InventoryRisk,
            )
            &&& !lots_exceed && !buys_exceed && !full && buying <==> reason == Some(
                RejectReason::TooManyActiveBuys,
            )
            &&& !lots_exceed && !buys_exceed && !full && !buying && selling <==> reason == Some(
                RejectReason::TooManyActiveSells,
            )
        }),
{
}

/// Snapshots count for as many minutes as configured, at least for five.
pub proof fn history_reaches_back_minutes<N>(config: LocalBazaarScanConfig<N>, timestamp: u64)
    requires
        config.history_window_minutes * 60 <= u64::MAX,
    ensures
        ({
            let cutoff = history_cutoff(config, timestamp);
            let seconds = if config.history_window_minutes < 5 {
                300
            } else {
                config.history_window_minutes * 60
            };
            &&& timestamp >= seconds ==> cutoff == timestamp - seconds
            &&& timestamp < seconds ==> cutoff == 0
        }),
{
}

/// A product that passes the screening is noted in the history behind its recent
/// snapshots, pending and without a score, whether or not it becomes a flip; the
/// notes of other products stay.
pub proof fn screened_products_enter_the_history<N: Number>(
    r: ScanRecord<N>,
    tag: Seq<char>,
    product: BazaarProduct<N>,
    config: LocalBazaarScanConfig<N>,
    timestamp: u64,
    other: Seq<char>,
)
    requires
        screen_reason(tag, product, config) is None,
    ensures
        ({
            let after = scan_product(r, tag, product, config, timestamp);
            let past = recent(r.history, tag, history_cutoff(config, timestamp));
            let noted = lookup(after.history, tag);
            &&& noted is Some
            &&& noted->0.len() == past.len() + 1
            &&& noted->0.drop_last() == past
            &&& noted->0.last() == market_record(
                tag,
                figures_of(product, config),
                timestamp,
                N::whole(0),
                "pending"@,
            )
            &&& other != tag ==> lookup(after.history, other) == lookup(r.history, other)
        }),
{
    let past = recent(r.history, tag, history_cutoff(config, timestamp));
    let more = past.push(
        market_record(tag, figures_of(product, config), timestamp, N::whole(0), "pending"@),
    );
    assert(more.drop_last() =~= past);
    crate::listing::lookup_after_with_entry(r.history, tag, more, other);
    crate::listing::lookup_after_with_entry(r.history, tag, more, tag);
}

/// A product becomes exactly one of: left out at first sight with its reason,
/// left out when it is planned with its reason, or a candidate, which is logged
/// with its score and risk. A spiking price is reported besides.
pub proof fn products_are_taken_or_left_out<N: Number>(
    r: ScanRecord<N>,
    tag: Seq<char>,
    product: BazaarProduct<N>,
    config: LocalBazaarScanConfig<N>,
    timestamp: u64,
)
    ensures
        ({
            let after = scan_product(r, tag, product, config, timestamp);
            let f = figures_of(product, config);
            let rel = reliability(
                recent(r.history, tag, history_cutoff(config, timestamp)),
                f.sell_price,
                f.sell_price.spec_minus(f.buy_price),
            );
            let spiked = rel.note == Some("price_or_spread_spike"@);
            let first_look = screen_reason(tag, product, config);
            let prospect = Prospect {
                tag,
                classic: is_classic_flip(tag, config),
                product,
                figures: f,
                stability: rel.stability,
                spread_reliability: rel.spread_reliability,
                notes: match rel.note {
                    Some(note) => liquidity_notes(f, config).push(note),
                    None => liquidity_notes(f, config),
                },
            };
            let active = active_capital_of(config);
            let second_look = prospect.plan_reason(active, config);
            let told = if spiked {
                r.rejected.push(RejectReason::UnstableHistory)
            } else {
                r.rejected
            };
            &&& first_look is Some ==> {
                &&& after.candidates == r.candidates
                &&& after.logged == r.logged
                &&& after.rejected == r.rejected.push(first_look->0)
                &&& after.history == r.history
            }
            &&& first_look is None && second_look is Some ==> {
                &&& after.candidates == r.candidates
                &&& after.logged == r.logged
                &&& after.rejected == told.push(second_look->0)
            }
            &&& first_look is None && second_look is None ==> {
                let flip = prospect.flip(active, config);
                &&& after.candidates == r.candidates.push(flip)
                &&& after.logged == r.logged.push(
                    market_record(tag, f, timestamp, flip.score, flip.risk_level.name()),
                )
                &&& after.rejected == told
            }
        }),
{
    let f = figures_of(product, config);
    let rel = reliability(
        recent(r.history, tag, history_cutoff(config, timestamp)),
        f.sell_price,
        f.spec_spread(),
    );
    let notes = all_notes(product, rel.note, config);
    match rel.note {
        Some(note) => {
            assert(notes =~= liquidity_notes(f, config).push(note));
        },
        None => {
            assert(notes =~= liquidity_notes(f, config));
        },
    }
}

/// A flip ranks by its risk-adjusted profit per hour; between equals by its
/// hourly volume; between equals in both by its return.
pub proof fn flips_rank_by_profit_then_volume_then_return<N: Number>(
    a: FlipRecord<N>,
    b: FlipRecord<N>,
)
    ensures
        ({
            let more = b.risk_adjusted_expected_profit_per_hour.spec_below(
                a.risk_adjusted_expected_profit_per_hour,
            );
            let less = a.risk_adjusted_expected_profit_per_hour.spec_below(
                b.risk_adjusted_expected_profit_per_hour,
            );
            let busier = b.volume_value_hour.spec_below(a.volume_value_hour);
            let slower = a.volume_value_hour.spec_below(b.volume_value_hour);
            let better = b.roi_after_tax.spec_below(a.roi_after_tax);
            &&& more ==> ranks_above(a, b)
            &&& less ==> !ranks_above(a, b)
            &&& !more && !less && busier ==> ranks_above(a, b)
            &&& !more && !less && slower ==> !ranks_above(a, b)
            &&& !more && !less && !busier && !slower ==> (ranks_above(a, b) <==> better)
        }),
{
    N::below_is_asymmetric(
        a.risk_adjusted_expected_profit_per_hour,
        b.risk_adjusted_expected_profit_per_hour,
    );
    N::below_is_asymmetric(a.volume_value_hour, b.volume_value_hour);
}

/// One flip more is kept exactly when the budget is enough for it beside those
/// that are kept before it; those stay in any case.
pub proof fn flips_are_kept_while_the_budget_lasts<N: Number>(
    flips: Seq<FlipRecord<N>>,
    more: FlipRecord<N>,
    budget: N,
)
    ensures
        ({
            let before = within_budget(flips, budget);
            let after = within_budget(flips.push(more), budget);
            let taken = capital_sum(before).spec_plus(more.allocated_capital);
            &&& !budget.spec_below(taken) ==> after == before.push(more)
            &&& budget.spec_below(taken) ==> after == before
            &&& within_budget(Seq::<FlipRecord<N>>::empty(), budget).len() == 0
            &&& capital_sum(Seq::<FlipRecord<N>>::empty()) == N::whole(0)
            &&& capital_sum(before.push(more)) == taken
        }),
{
    assert(flips.push(more).drop_last() =~= flips);
    let before = within_budget(flips, budget);
    assert(before.push(more).drop_last() =~= before);
}

/// As many flips are returned as are asked for or as there may be items,
/// whichever is more, and at least one; the capital that they take together is
/// the active capital and no more than so many orders may be worth.
pub proof fn the_budget_covers_the_orders<N: OrderedNumber>(
    limit: usize,
    config: LocalBazaarScanConfig<N>,
)
    ensures
        ({
            let most = useful_limit(limit, config);
            let budget = capital_budget(limit, config);
            let active = active_capital_of(config);
            let orders = N::whole(config.max_order_value).spec_times(N::whole(most));
            &&& most >= limit
            &&& most >= config.max_items
            &&& most >= 1
            &&& most == limit || most == config.max_items || most == 1
            &&& config.max_order_value == 0 ==> budget == active
            &&& !active.spec_below(budget)
            &&& config.max_order_value > 0 ==> !orders.spec_below(budget) && (budget == active
                || budget == orders)
        }),
{
    N::below_is_asymmetric(active_capital_of(config), active_capital_of(config));
    N::smaller_is_least(
        active_capital_of(config),
        N::whole(config.max_order_value).spec_times(N::whole(useful_limit(limit, config))),
    );
}

/// The returned flips are the first of those that the budget is enough for, as
/// many as may be returned.
pub proof fn the_first_that_fit_are_returned<N: Number>(
    candidates: Seq<FlipRecord<N>>,
    limit: usize,
    config: LocalBazaarScanConfig<N>,
)
    ensures
        ({
            let fitting = within_budget(ranking(candidates), capital_budget(limit, config));
            let best = best_of(candidates, limit, config);
            let most = useful_limit(limit, config);
            &&& fitting.len() <= most ==> best == fitting
            &&& fitting.len() > most ==> best.len() == most
            &&& forall|i: int| 0 <= i < best.len() ==> #[trigger] best[i] == fitting[i]
        }),
{
}

/// Every candidate that the budget is not enough for is reported once, as
/// exceeding the capital.
pub proof fn what_exceeds_the_budget_is_reported<N: Number>(
    candidates: Seq<FlipRecord<N>>,
    limit: usize,
    config: LocalBazaarScanConfig<N>,
    i: int,
)
    ensures
        ({
            let fitting = within_budget(ranking(candidates), capital_budget(limit, config));
            let over = over_budget(candidates, limit, config);
            &&& fitting.len() + over.len() == candidates.len()
            &&& 0 <= i < over.len() ==> over[i] == RejectReason::CapitalLimit
        }),
{
    broadcast use vstd::seq_lib::group_to_multiset_ensures;

    ranking_keeps_flips(candidates);
    kept_are_no_more(ranking(candidates), capital_budget(limit, config));
    assert(ranking(candidates).len() == ranking(candidates).to_multiset().len());
    assert(candidates.len() == candidates.to_multiset().len());
}

/// A summary adds up what the flips promise, sets the total against the whole
/// capital and against the target of at least two million coins an hour, and
/// tells what of the capital is kept back and what of the active part is free.
pub proof fn summaries_add_up<N: Number>(
    flips: Seq<FlipRecord<N>>,
    more: FlipRecord<N>,
    allocated_total: N,
    config: LocalBazaarScanConfig<N>,
)
    ensures
        ({
            let none = summary_of(Seq::<FlipRecord<N>>::empty(), allocated_total, config);
            let before = summary_of(flips, allocated_total, config);
            let after = summary_of(flips.push(more), allocated_total, config);
            let capital = N::whole(config.total_capital);
            let zero = N::whole(0);
            &&& none.expected_total == zero
            &&& none.risk_adjusted_total == zero
            &&& after.expected_total == before.expected_total.spec_plus(
                more.expected_profit_per_hour,
            )
            &&& after.risk_adjusted_total == before.risk_adjusted_total.spec_plus(
                more.risk_adjusted_expected_profit_per_hour,
            )
            &&& config.total_capital > 0 ==> after.hourly_roi == after.risk_adjusted_total.spec_over(
                capital,
            )
            &&& config.total_capital == 0 ==> after.hourly_roi == zero
            &&& after.target_met <==> config.target_profit_per_hour.spec_larger(
                N::whole(2000000),
            ).spec_at_most(after.risk_adjusted_total)
            &&& after.active_capital == active_capital_of(config)
            &&& after.reserved_capital == capital.spec_minus(after.active_capital).spec_larger(zero)
            &&& after.free_capital == after.active_capital.spec_minus(allocated_total).spec_larger(
                zero,
            )
        }),
{
    assert(flips.push(more).drop_last() =~= flips);
}

/// A report returns candidates of the scan, logs as many products as it logged,
/// lists all its reasons, and states the capital of what fits: where all that
/// fits is returned, that is the capital of the returned flips.
pub proof fn reports_account_for_the_scan<N: Number>(
    report: ScanReport<N>,
    found: ScanRecord<N>,
    limit: usize,
    config: LocalBazaarScanConfig<N>,
    i: int,
)
    requires
        is_report_of(report, found, limit, config),
    ensures
        ({
            let flips = flip_records(report.flips@);
            let fitting = within_budget(ranking(found.candidates), capital_budget(limit, config));
            &&& flips.len() <= useful_limit(limit, config)
            &&& flips.len() <= fitting.len() <= found.candidates.len()
            &&& 0 <= i < flips.len() ==> found.candidates.contains(flips[i])
            &&& fitting.len() <= useful_limit(limit, config) ==> report.allocated_total
                == capital_sum(flips)
            &&& report.logged@.len() == found.logged.len()
            &&& report.rejected@.len() == found.rejected.len() + found.candidates.len()
                - fitting.len()
            &&& 0 <= i < found.rejected.len() ==> report.rejected@[i] == found.rejected[i]
            &&& found.rejected.len() <= i < report.rejected@.len() ==> report.rejected@[i]
                == RejectReason::CapitalLimit
        }),
{
    best_are_candidates(found.candidates, limit, config, i);
    what_exceeds_the_budget_is_reported(
        found.candidates,
        limit,
        config,
        i - found.rejected.len(),
    );
    the_first_that_fit_are_returned(found.candidates, limit, config);
    assert(market_records(report.logged@).len() == report.logged@.len());
}

/// A scan logs every candidate and nothing else.
pub proof fn candidates_are_logged<N: Number>(
    start: ScanRecord<N>,
    products: Seq<(String, BazaarProduct<N>)>,
    config: LocalBazaarScanConfig<N>,
    timestamp: u64,
)
    requires
        start.candidates.len() == start.logged.len(),
    ensures
        ({
            let found = scan_products(start, products, config, timestamp);
            &&& found.candidates.len() == found.logged.len()
            &&& found.candidates.len() <= start.candidates.len() + products.len()
            &&& found.candidates.len() + found.rejected.len() >= start.candidates.len()
                + start.rejected.len() + products.len()
        }),
    decreases products.len(),
{
    if products.len() > 0 {
        candidates_are_logged(start, products.drop_last(), config, timestamp);
    }
}

/// Flips that are in order already stay as they are; so flips that rank equal
/// keep the order in which they were found.
pub proof fn ranked_flips_keep_their_order<N: Number>(flips: Seq<FlipRecord<N>>)
    requires
        is_ranked(flips),
    ensures
        ranking(flips) == flips,
    decreases flips.len(),
{
    if flips.len() > 0 {
        let rest = flips.drop_last();
        assert forall|i: int, j: int| 0 <= i < j < rest.len() implies !ranks_above(
            #[trigger] rest[j],
            #[trigger] rest[i],
        ) by {
            assert(!ranks_above(flips[j], flips[i]));
        }
        ranked_flips_keep_their_order(rest);
        if rest.len() > 0 {
            assert(!ranks_above(flips[flips.len() - 1], flips[flips.len() - 2]));
        }
        assert(rest.push(flips.last()) =~= flips);
    } else {
        assert(ranking(flips) =~= flips);
    }
}

/// A flip that ranks above all others comes first, and one that ranks above none
/// comes last.
pub proof fn the_best_flip_comes_first<N: Number>(flips: Seq<FlipRecord<N>>, more: FlipRecord<N>)
    ensures
        (forall|i: int| 0 <= i < ranking(flips).len() ==> ranks_above(more, #[trigger] ranking(flips)[i]))
            ==> ranking(flips.push(more)) == seq![more] + ranking(flips),
        (forall|i: int| 0 <= i < ranking(flips).len() ==> !ranks_above(more, #[trigger] ranking(flips)[i]))
            ==> ranking(flips.push(more)) == ranking(flips).push(more),
{
    assert(flips.push(more).drop_last() =~= flips);
    let ranked = ranking(flips);
    if forall|i: int| 0 <= i < ranked.len() ==> ranks_above(more, #[trigger] ranked[i]) {
        best_is_put_first(ranked, more);
    }
    if forall|i: int| 0 <= i < ranked.len() ==> !ranks_above(more, #[trigger] ranked[i]) {
        if ranked.len() > 0 {
            assert(!ranks_above(more, ranked[ranked.len() - 1]));
        }
    }
}

proof fn best_is_put_first<N: Number>(ranked: Seq<FlipRecord<N>>, more: FlipRecord<N>)
    requires
        forall|i: int| 0 <= i < ranked.len() ==> ranks_above(more, #[trigger] ranked[i]),
    ensures
        with_ranked(ranked, more) == seq![more] + ranked,
    decreases ranked.len(),
{
    if ranked.len() > 0 {
        let rest = ranked.drop_last();
        assert forall|i: int| 0 <= i < rest.len() implies ranks_above(more, #[trigger] rest[i]) by {
            assert(rest[i] == ranked[i]);
        }
        best_is_put_first(rest, more);
        assert(ranks_above(more, ranked[ranked.len() - 1]));
        assert((seq![more] + rest).push(ranked.last()) =~= seq![more] + ranked);
    } else {
        assert(ranked.push(more) =~= seq![more] + ranked);
    }
}

} // verus!
