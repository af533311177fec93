//! The three-tier scan of one package: which tiers run, and how their
//! results become the package result.
//!
//! Tiers 1 and 2 need the network and tier 3 reads the installed package;
//! the caller runs them and hands their results to the steps here.

use vstd::prelude::*;
use crate::scorer::{aggregate, spec_aggregate};
use crate::config::Tier2Config;
use crate::tier2_meta::{download_thresholds, spec_score, Tier2Output};
use crate::types::{Ecosystem, Package, PackageResult, Timestamp, TierResult, Verdict};

verus! {

broadcast use vstd::string::group_string_axioms;

/// The tier-2 score from which a package is flagged for the source
/// analysis: a brand-new package with next to no downloads scores 60
/// (30 for its age, 30 for its downloads), the most that tier 2 gives.
pub const TIER3_SCORE: u8 = 60;

/// The AI coding tool that the environment names, by the label that the
/// manifest records: `anthropic` where `CLAUDE_CODE` or
/// `ANTHROPIC_CLAUDE_CODE` is set, else `cursor` where `CURSOR_TRACE_ID` is,
/// else `github-copilot` where `COPILOT_AGENT` is.
pub fn detect_ai_tool(
    claude_code: bool,
    anthropic_claude_code: bool,
    cursor_trace_id: bool,
    copilot_agent: bool,
) -> (r: Option<String>)
    ensures
        (claude_code || anthropic_claude_code) ==> (r matches Some(s) && s@ == "anthropic"@),
        !(claude_code || anthropic_claude_code) && cursor_trace_id ==> (r matches Some(s) && s@
            == "cursor"@),
        !(claude_code || anthropic_claude_code || cursor_trace_id) && copilot_agent ==> (r matches Some(
            s,
        ) && s@ == "github-copilot"@),
        !(claude_code || anthropic_claude_code || cursor_trace_id || copilot_agent) ==> r is None,
{
    if claude_code || anthropic_claude_code {
        return Some("anthropic".to_owned());
    }
    if cursor_trace_id {
        return Some("cursor".to_owned());
    }
    if copilot_agent {
        return Some("github-copilot".to_owned());
    }
    None
}

/// Whether the source analysis runs after tiers 1 and 2: not where tier 1
/// blocks, and only for a package that tier 2 flags (a score of 60 or
/// more) with the installed package at hand.
pub open spec fn spec_needs_source_analysis(tier1: TierResult, tier2_score: nat, has_package_dir: bool) -> bool {
    !tier1.spec_is_blocking() && tier2_score >= 60 && has_package_dir
}

/// Whether the source analysis runs for these tier results.
pub fn needs_source_analysis(tier1: &TierResult, tier2_score: u8, has_package_dir: bool) -> (r: bool)
    ensures
        r == spec_needs_source_analysis(*tier1, tier2_score as nat, has_package_dir),
{
    !tier1.is_blocking() && tier2_score >= TIER3_SCORE && has_package_dir
}

/// The verdict of a scan: the aggregate of the three tiers, except that a
/// failed vulnerability lookup (tier 1 `Error`) warns where the other tiers
/// would let the package pass.
pub open spec fn spec_scan_verdict(t1: TierResult, t2: TierResult, t3: TierResult) -> Verdict {
    if t1 is Error && spec_aggregate(t1, t2, t3) == Verdict::Pass {
        Verdict::Warn
    } else {
        spec_aggregate(t1, t2, t3)
    }
}

/// The package result from the tier results: tier 3 is `Skipped` where it
/// did not run, and the verdict is the aggregate of the three tiers, raised
/// to a warning where the vulnerability lookup failed.
pub fn assemble_result(
    pkg: &Package,
    tier1: TierResult,
    t2: Tier2Output,
    tier3: Option<TierResult>,
    checked_at: Timestamp,
    ai_tool: Option<String>,
) -> (r: PackageResult)
    ensures
        r.package == *pkg,
        r.tier1 == tier1,
        r.tier2 == t2.result,
        r.tier2_score == t2.score,
        r.tier2_age_days == t2.age_days,
        r.tier2_downloads == t2.downloads,
        r.tier3 == (match tier3 {
            Some(t) => t,
            None => TierResult::Skipped,
        }),
        r.verdict == spec_scan_verdict(r.tier1, r.tier2, r.tier3),
        r.checked_at == checked_at,
        r.ai_tool == ai_tool,
{
    let tier3 = match tier3 {
        Some(t) => t,
        None => TierResult::Skipped,
    };
    let verdict = if tier1.is_blocking() {
        Verdict::Block
    } else {
        let v = aggregate(&tier1, &t2.result, &tier3);
        let lookup_failed = match &tier1 {
            TierResult::Error { .. } => true,
            _ => false,
        };
        if lookup_failed && v == Verdict::Pass {
            Verdict::Warn
        } else {
            v
        }
    };
    PackageResult {
        package: pkg.clone(),
        tier1,
        tier2: t2.result,
        tier2_score: t2.score,
        tier2_age_days: t2.age_days,
        tier2_downloads: t2.downloads,
        tier3,
        verdict,
        checked_at,
        ai_tool,
    }
}

/// A known vulnerability blocks the package whatever the other tiers say,
/// and the source analysis is then not run.
pub proof fn lemma_tier1_block_dominates(t1: TierResult, score: u8, has_dir: bool, t2: TierResult, t3: TierResult)
    requires
        t1.spec_is_blocking(),
    ensures
        !spec_needs_source_analysis(t1, score as nat, has_dir),
        spec_scan_verdict(t1, t2, t3) == Verdict::Block,
{
}

/// A failed vulnerability lookup never lets a package pass: the scan at
/// least warns.
pub proof fn lemma_lookup_failure_warns(t1: TierResult, t2: TierResult, t3: TierResult)
    requires
        t1 is Error,
    ensures
        spec_scan_verdict(t1, t2, t3) != Verdict::Pass,
{
}

/// A package newer than the flag age with fewer downloads than the flag
/// threshold is flagged by tier 2 and goes on to the source analysis
/// (where no vulnerability blocks it and the installed package is at hand).
pub proof fn lemma_new_unpopular_package_is_analyzed(
    age: u64,
    downloads: u64,
    eco: Ecosystem,
    t2: Tier2Config,
    t1: TierResult,
)
    requires
        age < t2.flag_if_newer_than_days,
        downloads < download_thresholds(eco, t2).0,
        !t1.spec_is_blocking(),
    ensures
        spec_score(Some(age), Some(downloads), eco, t2) == 60,
        spec_needs_source_analysis(t1, spec_score(Some(age), Some(downloads), eco, t2), true),
{
}

/// What a scan concludes from its three tier results: it blocks exactly
/// when some tier blocks (a failed lookup never blocks by itself), passes
/// exactly when no tier blocks or warns and the vulnerability lookup did not
/// fail, and warns otherwise.
pub proof fn lemma_scan_verdict_classes(t1: TierResult, t2: TierResult, t3: TierResult)
    ensures
        spec_scan_verdict(t1, t2, t3) == Verdict::Block <==> (t1 is Block || t2 is Block
            || t3 is Block),
        spec_scan_verdict(t1, t2, t3) == Verdict::Pass <==> (!(t1 is Block || t2 is Block
            || t3 is Block) && !(t1 is Warn || t2 is Warn || t3 is Warn) && !(t1 is Error)),
        spec_scan_verdict(t1, t2, t3) == Verdict::Warn <==> (!(t1 is Block || t2 is Block
            || t3 is Block) && ((t1 is Warn || t2 is Warn || t3 is Warn) || t1 is Error)),
{
}

} // verus!
