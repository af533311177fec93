use gard::report::{
    any_blocked, block_reason, format_tier_info, lockfile_name, make_rules, pick_rule,
    report_counts, runtime_context_from, sarif_results, tier_label, to_sarif_result,
    RuntimeContext,
};
use gard::types::{Ecosystem, Package, PackageResult, TierResult, Timestamp, Verdict};

fn result(
    name: &str,
    eco: Ecosystem,
    tiers: (TierResult, TierResult, TierResult),
    score: u8,
    downloads: Option<u64>,
    verdict: Verdict,
) -> PackageResult {
    PackageResult {
        package: Package::new(name, "1.0.0", eco),
        tier1: tiers.0,
        tier2: tiers.1,
        tier2_score: score,
        tier2_age_days: None,
        tier2_downloads: downloads,
        tier3: tiers.2,
        verdict,
        checked_at: Timestamp::from_unix(0, 0).unwrap(),
        ai_tool: None,
    }
}

fn warn(s: &str) -> TierResult {
    TierResult::Warn { reason: s.to_string() }
}

fn block(s: &str) -> TierResult {
    TierResult::Block { reason: s.to_string() }
}

fn sample() -> Vec<PackageResult> {
    vec![
        result("a", Ecosystem::Npm, (TierResult::Pass, TierResult::Pass, TierResult::Skipped), 0, Some(5_300_000), Verdict::Pass),
        result("b", Ecosystem::PyPI, (TierResult::Pass, warn("low"), TierResult::Skipped), 45, Some(3_456), Verdict::Warn),
        result("c", Ecosystem::Cargo, (block("CVE"), warn("new"), block("evil")), 65, Some(7), Verdict::Block),
    ]
}

#[test]
fn counts_add_up() {
    let c = report_counts(&sample());
    assert_eq!((c.total, c.blocked, c.warned, c.passed), (3, 1, 1, 1));
    assert!(any_blocked(&sample()));
    assert!(!any_blocked(&sample()[..2]));
}

#[test]
fn sarif_lists_flagged_results() {
    let s = sarif_results(&sample());
    assert_eq!(s.len(), 2);
    assert_eq!(s[0].rule_id, "GARD002");
    assert_eq!(s[0].level, "warning");
    assert_eq!(s[0].message, "b@1.0.0 — low");
    assert_eq!(s[0].uri, "requirements.txt");
    assert_eq!(s[1].rule_id, "GARD003");
    assert_eq!(s[1].level, "error");
    assert_eq!(s[1].message, "c@1.0.0 — evil");
    assert_eq!(s[1].uri, "Cargo.toml");
}

#[test]
fn rule_pick_falls_back_to_score() {
    let r = result("d", Ecosystem::Npm, (TierResult::Pass, TierResult::Pass, TierResult::Skipped), 12, None, Verdict::Pass);
    let (rule, msg) = pick_rule(&r);
    assert_eq!(rule, "GARD002");
    assert_eq!(msg, "d@1.0.0 — score 12");
    let f = to_sarif_result(&r);
    assert_eq!(f.level, "note");
    assert_eq!(f.uri, "package.json");
    let r = result("e", Ecosystem::Npm, (block("CVE-1"), TierResult::Pass, TierResult::Skipped), 0, None, Verdict::Block);
    assert_eq!(pick_rule(&r), ("GARD001", "e@1.0.0 — CVE-1".to_string()));
}

#[test]
fn rules() {
    let r = make_rules();
    assert_eq!(r.len(), 3);
    assert_eq!((r[0].id, r[0].name), ("GARD001", "KnownVulnerability"));
    assert_eq!(r[2].description, "Package contains malicious code patterns");
}

#[test]
fn tier_info_lines() {
    let s = sample();
    assert_eq!(format_tier_info(&s[0]), "T1 pass · T2 pass (score 0) · 5M weekly");
    assert_eq!(format_tier_info(&s[1]), "T1 pass · T2 warn (score 45) · 3K weekly");
    assert_eq!(format_tier_info(&s[2]), "T1 BLOCK · T2 flag (score 65) · 7 downloads");
    let r = result("x", Ecosystem::Npm, (TierResult::Error { message: "m".into() }, TierResult::Skipped, TierResult::Skipped), 0, None, Verdict::Pass);
    assert_eq!(format_tier_info(&r), "T1 error");
    let warn = || TierResult::Warn { reason: "risk score".into() };
    let r = result("colo0rs", Ecosystem::Npm, (TierResult::Pass, warn(), TierResult::Skipped), 60, Some(3), Verdict::Warn);
    assert_eq!(format_tier_info(&r), "T1 pass · T2 flag (score 60) · 3 downloads");
    let r = result("y", Ecosystem::Npm, (TierResult::Pass, warn(), TierResult::Skipped), 59, Some(3), Verdict::Warn);
    assert_eq!(format_tier_info(&r), "T1 pass · T2 warn (score 59) · 3 downloads");
}

#[test]
fn block_reasons_prefer_later_tiers() {
    assert_eq!(block_reason(&sample()[2]), "evil");
    assert_eq!(block_reason(&sample()[0]), "unknown reason");
    assert_eq!(tier_label(&TierResult::Skipped), "skip");
    assert_eq!(lockfile_name(&Ecosystem::PyPI), "requirements.txt");
}

#[test]
fn runtime_context() {
    assert_eq!(runtime_context_from(false, true, true, true), RuntimeContext::ClaudeCode);
    assert_eq!(runtime_context_from(false, false, true, true), RuntimeContext::Cursor);
    assert_eq!(runtime_context_from(false, false, false, true), RuntimeContext::GitHubActions);
    assert_eq!(runtime_context_from(false, false, false, false), RuntimeContext::Standard);
}
