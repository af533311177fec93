//! Combining the three tier results into one verdict.

use vstd::prelude::*;
use crate::types::{TierResult, Verdict};

verus! {

/// How severe a tier result is: 2 for a block, 1 for a warning, 0 otherwise.
pub open spec fn severity(t: TierResult) -> nat {
    if t.spec_is_blocking() {
        2
    } else if t.spec_is_flagged() {
        1
    } else {
        0
    }
}

/// The verdict for three tier results: any block blocks, else any warning
/// warns, else the package passes.
pub open spec fn spec_aggregate(t1: TierResult, t2: TierResult, t3: TierResult) -> Verdict {
    if t1.spec_is_blocking() || t2.spec_is_blocking() || t3.spec_is_blocking() {
        Verdict::Block
    } else if t1.spec_is_flagged() || t2.spec_is_flagged() || t3.spec_is_flagged() {
        Verdict::Warn
    } else {
        Verdict::Pass
    }
}

/// The final verdict from the three tiers.
pub fn aggregate(tier1: &TierResult, tier2: &TierResult, tier3: &TierResult) -> (r: Verdict)
    ensures
        r == spec_aggregate(*tier1, *tier2, *tier3),
        r is Block <==> (tier1 is Block || tier2 is Block || tier3 is Block),
        r is Warn <==> (!(tier1 is Block || tier2 is Block || tier3 is Block) && (tier1 is Warn
            || tier2 is Warn || tier3 is Warn)),
{
    if tier1.is_blocking() || tier2.is_blocking() || tier3.is_blocking() {
        return Verdict::Block;
    }
    if tier1.is_flagged() || tier2.is_flagged() || tier3.is_flagged() {
        return Verdict::Warn;
    }
    Verdict::Pass
}

/// The verdict's rank is the highest severity among the three tiers: the
/// most severe tier decides, and no tier can soften another's result.
pub proof fn lemma_aggregate_is_max_severity(t1: TierResult, t2: TierResult, t3: TierResult)
    ensures
        spec_aggregate(t1, t2, t3).rank() >= severity(t1),
        spec_aggregate(t1, t2, t3).rank() >= severity(t2),
        spec_aggregate(t1, t2, t3).rank() >= severity(t3),
        spec_aggregate(t1, t2, t3).rank() == severity(t1) || spec_aggregate(t1, t2, t3).rank()
            == severity(t2) || spec_aggregate(t1, t2, t3).rank() == severity(t3),
{
}

/// The order in which the tiers are given does not change the verdict.
pub proof fn lemma_aggregate_order_independent(t1: TierResult, t2: TierResult, t3: TierResult)
    ensures
        spec_aggregate(t1, t2, t3) == spec_aggregate(t2, t1, t3),
        spec_aggregate(t1, t2, t3) == spec_aggregate(t1, t3, t2),
        spec_aggregate(t1, t2, t3) == spec_aggregate(t3, t2, t1),
{
}

/// Making one tier more severe never lowers the verdict.
pub proof fn lemma_aggregate_monotone(t1: TierResult, t1b: TierResult, t2: TierResult, t3: TierResult)
    requires
        severity(t1) <= severity(t1b),
    ensures
        spec_aggregate(t1, t2, t3).rank() <= spec_aggregate(t1b, t2, t3).rank(),
{
}

} // verus!
