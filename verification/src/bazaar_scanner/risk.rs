//! Risk levels, recommendations and reasons to leave a product out.

use vstd::prelude::*;
use vstd::string::*;

use crate::listing::{lookup, with_entry, Entries, Listing};
use crate::number::{fraction, ratio, Number};
use crate::text::{same_text, texts};

verus! {

/// How risky a flip is.
#[derive(Debug, Clone, Copy, PartialEq, Eq)]
pub enum RiskLevel {
    Low,
    Medium,
    High,
    Extreme,
}

impl RiskLevel {
    /// The name of the level.
    pub open spec fn name(self) -> Seq<char> {
        match self {
            RiskLevel::Low => "Low"@,
            RiskLevel::Medium => "Medium"@,
            RiskLevel::High => "High"@,
            RiskLevel::Extreme => "Extreme"@,
        }
    }

    pub fn as_str(&self) -> (r: &'static str)
        ensures
            r@ == self.name(),
    {
        match self {
            RiskLevel::Low => "Low",
            RiskLevel::Medium => "Medium",
            RiskLevel::High => "High",
            RiskLevel::Extreme => "Extreme",
        }
    }
}

/// What to make of a flip.
#[derive(Debug, Clone, Copy, PartialEq, Eq)]
pub enum Recommendation {
    StrongCandidate,
    GoodButLimitCapital,
    HighVolumeLowMargin,
    HighMarginLowVolume,
    Risky,
    PossibleManipulation,
    DeadItem,
    Avoid,
}

/// Why a product, or a whole scan, is left out.
#[derive(Debug, Clone, Copy, PartialEq, Eq)]
pub enum RejectReason {
    TooMuchOpenCostBasis,
    TooMuchOpenCapital,
    InventoryRisk,
    TooManyActiveBuys,
    TooManyActiveSells,
    UnsupportedProductLookup,
    InvalidPrice,
    ThinOrderbook,
    LowVolume,
    LowRoiAfterTax,
    ManipulationRisk,
    LowSellLiquidity,
    UnstableHistory,
    CapitalLimit,
}

impl RejectReason {
    /// The name of the reason.
    pub open spec fn name(self) -> Seq<char> {
        match self {
            RejectReason::TooMuchOpenCostBasis => "TOO_MUCH_OPEN_COST_BASIS"@,
            RejectReason::TooMuchOpenCapital => "TOO_MUCH_OPEN_CAPITAL"@,
            RejectReason::InventoryRisk => "INVENTORY_RISK"@,
            RejectReason::TooManyActiveBuys => "TOO_MANY_ACTIVE_BUYS"@,
            RejectReason::TooManyActiveSells => "TOO_MANY_ACTIVE_SELLS"@,
            RejectReason::UnsupportedProductLookup => "UNSUPPORTED_PRODUCT_LOOKUP"@,
            RejectReason::InvalidPrice => "INVALID_PRICE"@,
            RejectReason::ThinOrderbook => "THIN_ORDERBOOK"@,
            RejectReason::LowVolume => "LOW_VOLUME"@,
            RejectReason::LowRoiAfterTax => "LOW_ROI_AFTER_TAX"@,
            RejectReason::ManipulationRisk => "MANIPULATION_RISK"@,
            RejectReason::LowSellLiquidity => "LOW_SELL_LIQUIDITY"@,
            RejectReason::UnstableHistory => "UNSTABLE_HISTORY"@,
            RejectReason::CapitalLimit => "CAPITAL_LIMIT"@,
        }
    }

    pub fn as_str(&self) -> (r: &'static str)
        ensures
            r@ == self.name(),
    {
        match self {
            RejectReason::TooMuchOpenCostBasis => "TOO_MUCH_OPEN_COST_BASIS",
            RejectReason::TooMuchOpenCapital => "TOO_MUCH_OPEN_CAPITAL",
            RejectReason::InventoryRisk => "INVENTORY_RISK",
            RejectReason::TooManyActiveBuys => "TOO_MANY_ACTIVE_BUYS",
            RejectReason::TooManyActiveSells => "TOO_MANY_ACTIVE_SELLS",
            RejectReason::UnsupportedProductLookup => "UNSUPPORTED_PRODUCT_LOOKUP",
            RejectReason::InvalidPrice => "INVALID_PRICE",
            RejectReason::ThinOrderbook => "THIN_ORDERBOOK",
            RejectReason::LowVolume => "LOW_VOLUME",
            RejectReason::LowRoiAfterTax => "LOW_ROI_AFTER_TAX",
            RejectReason::ManipulationRisk => "MANIPULATION_RISK",
            RejectReason::LowSellLiquidity => "LOW_SELL_LIQUIDITY",
            RejectReason::UnstableHistory => "UNSTABLE_HISTORY",
            RejectReason::CapitalLimit => "CAPITAL_LIMIT",
        }
    }
}

/// The tally with one more of `reason`; a count wraps around.
pub open spec fn bumped(tally: Entries<usize>, reason: Seq<char>) -> Entries<usize> {
    let before = match lookup(tally, reason) {
        Some(count) => count,
        None => 0,
    };
    with_entry(tally, reason, before.wrapping_add(1))
}

/// How often each reason was given, in the order in which they first came.
pub open spec fn tally_of(reasons: Seq<RejectReason>) -> Entries<usize>
    decreases reasons.len(),
{
    if reasons.len() == 0 {
        Seq::empty()
    } else {
        bumped(tally_of(reasons.drop_last()), reasons.last().name())
    }
}

/// Counts a reason.
pub fn bump(tally: &mut Listing<usize>, reason: &str)
    ensures
        final(tally)@ == bumped(old(tally)@, reason@),
{
    let before: usize = match tally.get(reason) {
        Some(count) => *count,
        None => 0,
    };
    tally.insert(reason.to_string(), before.wrapping_add(1));
}

/// Counts how often each reason was given.
pub fn tally_reasons(reasons: &Vec<RejectReason>) -> (r: Listing<usize>)
    ensures
        r@ == tally_of(reasons@),
{
    let mut tally: Listing<usize> = Listing::new();
    let mut i: usize = 0;
    while i < reasons.len()
        invariant
            i <= reasons.len(),
            tally@ == tally_of(reasons@.take(i as int)),
        decreases reasons.len() - i,
    {
        assert(reasons@.take(i + 1).drop_last() =~= reasons@.take(i as int));
        bump(&mut tally, reasons[i].as_str());
        i = i + 1;
    }
    assert(reasons@.take(i as int) =~= reasons@);
    tally
}

/// The note on a price that is far off its history.
pub open spec fn spike_note() -> Seq<char> {
    "price_or_spread_spike"@
}

/// The risk level: extreme where a thinly traded price spikes, else by the risk
/// multiplier and the number of notes.
pub open spec fn risk_level<N: Number>(
    multiplier: N,
    notes: Seq<Seq<char>>,
    volume_value_hour: N,
) -> RiskLevel {
    if notes.contains(spike_note()) && volume_value_hour.spec_below(N::whole(2000000)) {
        RiskLevel::Extreme
    } else if multiplier.spec_below(ratio(18, 100)) || notes.len() >= 3 {
        RiskLevel::High
    } else if multiplier.spec_below(ratio(38, 100)) || notes.len() >= 2 {
        RiskLevel::Medium
    } else {
        RiskLevel::Low
    }
}

pub fn risk_level_for<N: Number>(multiplier: N, notes: &Vec<String>, volume_value_hour: N) -> (r:
    RiskLevel)
    ensures
        r == risk_level(multiplier, texts(notes@), volume_value_hour),
{
    let mut spike = false;
    let mut i: usize = 0;
    while i < notes.len()
        invariant
            i <= notes.len(),
            spike == exists|j: int| 0 <= j < i && #[trigger] texts(notes@)[j] == spike_note(),
        decreases notes.len() - i,
    {
        if same_text(notes[i].as_str(), "price_or_spread_spike") {
            assert(texts(notes@)[i as int] == spike_note());
            spike = true;
        }
        i = i + 1;
    }
    assert(spike == texts(notes@).contains(spike_note()));
    if spike && volume_value_hour.below(N::from_u64(2000000)) {
        return RiskLevel::Extreme;
    }
    if multiplier.below(fraction(18, 100)) || notes.len() >= 3 {
        RiskLevel::High
    } else if multiplier.below(fraction(38, 100)) || notes.len() >= 2 {
        RiskLevel::Medium
    } else {
        RiskLevel::Low
    }
}

/// The recommendation for a flip, from its margin, its hourly volume and its
/// risk.
pub open spec fn recommendation<N: Number>(
    roi_percent: N,
    volume_value_hour: N,
    level: RiskLevel,
    target_roi_percent: N,
    preferred_volume_value_hour: N,
) -> Recommendation {
    let on_target = target_roi_percent.spec_at_most(roi_percent);
    let preferred = preferred_volume_value_hour;
    if level is Extreme {
        Recommendation::PossibleManipulation
    } else if level is High && volume_value_hour.spec_below(preferred) {
        Recommendation::Risky
    } else if volume_value_hour.spec_below(N::whole(1000000)) {
        Recommendation::DeadItem
    } else if on_target && preferred.spec_at_most(volume_value_hour) {
        Recommendation::StrongCandidate
    } else if roi_percent.spec_below(target_roi_percent) && preferred.spec_times(
        N::whole(2),
    ).spec_at_most(volume_value_hour) {
        Recommendation::HighVolumeLowMargin
    } else if target_roi_percent.spec_times(N::whole(2)).spec_at_most(roi_percent)
        && volume_value_hour.spec_below(preferred) {
        Recommendation::HighMarginLowVolume
    } else {
        Recommendation::GoodButLimitCapital
    }
}

pub fn recommendation_for<N: Number>(
    roi_percent: N,
    volume_value_hour: N,
    risk_level: RiskLevel,
    target_roi_percent: N,
    preferred_volume_value_hour: N,
) -> (r: Recommendation)
    ensures
        r == recommendation(
            roi_percent,
            volume_value_hour,
            risk_level,
            target_roi_percent,
            preferred_volume_value_hour,
        ),
{
    let two = N::from_u64(2);
    match risk_level {
        RiskLevel::Extreme => {
            return Recommendation::PossibleManipulation;
        },
        RiskLevel::High => {
            if volume_value_hour.below(preferred_volume_value_hour) {
                return Recommendation::Risky;
            }
        },
        _ => {},
    }
    if volume_value_hour.below(N::from_u64(1000000)) {
        Recommendation::DeadItem
    } else if target_roi_percent.at_most(roi_percent) && preferred_volume_value_hour.at_most(
        volume_value_hour,
    ) {
        Recommendation::StrongCandidate
    } else if roi_percent.below(target_roi_percent) && preferred_volume_value_hour.times(
        two,
    ).at_most(volume_value_hour) {
        Recommendation::HighVolumeLowMargin
    } else if target_roi_percent.times(two).at_most(roi_percent) && volume_value_hour.below(
        preferred_volume_value_hour,
    ) {
        Recommendation::HighMarginLowVolume
    } else {
        Recommendation::GoodButLimitCapital
    }
}

} // verus!
