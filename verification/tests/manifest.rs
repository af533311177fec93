use gard::manifest::{tier_label, Manifest, ManifestEntry, TierSummary};
use gard::types::{Ecosystem, Package, PackageResult, TierResult, Timestamp, Verdict};

fn scan_result(name: &str, version: &str, eco: Ecosystem, verdict: Verdict) -> PackageResult {
    PackageResult {
        package: Package::new(name, version, eco),
        tier1: TierResult::Pass,
        tier2: TierResult::Warn { reason: "risk".to_string() },
        tier2_score: 45,
        tier2_age_days: Some(3),
        tier2_downloads: Some(10),
        tier3: TierResult::Skipped,
        verdict,
        checked_at: Timestamp::from_unix(1_767_225_600, 0).unwrap(),
        ai_tool: Some("cursor".to_string()),
    }
}

#[test]
fn new_manifest_is_empty() {
    let m = Manifest::new(Some("git@example.com:x.git".to_string()));
    assert_eq!(m.version, "1");
    assert_eq!(m.schema, "https://gard.dev/schema/v1");
    assert_eq!(m.repo.as_deref(), Some("git@example.com:x.git"));
    assert!(m.packages.is_empty());
}

#[test]
fn entry_from_result() {
    let r = scan_result("axios", "1.7.0", Ecosystem::Npm, Verdict::Warn);
    let e = ManifestEntry::from_result(&r, Some("dev".to_string()));
    assert_eq!(e.name, "axios");
    assert_eq!(e.version, "1.7.0");
    assert_eq!(e.checked_at, "2026-01-01T00:00:00+00:00");
    assert_eq!(e.tier1.result, "PASS");
    assert_eq!(e.tier1.reason, None);
    assert_eq!(e.tier2.result, "WARN");
    assert_eq!(e.tier2.score, 45);
    assert_eq!(e.tier2.age_days, Some(3));
    assert_eq!(e.tier2.weekly_downloads, Some(10));
    assert_eq!(e.tier3.result, "SKIPPED");
    assert_eq!(e.final_verdict, "WARN");
    assert_eq!(e.ai_tool.as_deref(), Some("cursor"));
    assert_eq!(e.added_by.as_deref(), Some("dev"));
}

#[test]
fn timestamps() {
    let t = Timestamp::from_unix(1_431_648_000, 500_000_000).unwrap();
    assert_eq!(t.to_rfc3339(), "2015-05-15T00:00:00.500+00:00");
    assert_eq!((t.secs(), t.nanos()), (1_431_648_000, 500_000_000));
    assert!(Timestamp::from_unix(0, 2_000_000_000).is_none());
    assert!(Timestamp::from_unix(i64::MAX, 0).is_none());
}

#[test]
fn summaries_and_labels() {
    let s = TierSummary::from_tier(&TierResult::Error { message: "timeout".to_string() });
    assert_eq!(s.result, "ERROR");
    assert_eq!(s.reason.as_deref(), Some("timeout"));
    let s = TierSummary::from_tier(&TierResult::Block { reason: "CVE".to_string() });
    assert_eq!((s.result.as_str(), s.reason.as_deref()), ("BLOCK", Some("CVE")));
    assert_eq!(tier_label(&TierResult::Skipped), "SKIPPED");
    assert_eq!(tier_label(&TierResult::Pass), "PASS");
}

#[test]
fn upsert_replaces_same_package() {
    let mut m = Manifest::new(None);
    m.upsert(&scan_result("a", "1", Ecosystem::Npm, Verdict::Pass), None);
    m.upsert(&scan_result("a", "1", Ecosystem::PyPI, Verdict::Pass), None);
    assert_eq!(m.packages.len(), 2);
    m.upsert(&scan_result("a", "2", Ecosystem::Npm, Verdict::Block), Some("me".to_string()));
    assert_eq!(m.packages.len(), 2);
    assert_eq!(m.packages[0].version, "2");
    assert_eq!(m.packages[0].final_verdict, "BLOCK");
    assert_eq!(m.packages[1].ecosystem, Ecosystem::PyPI);
    assert_eq!(m.find_by_name("a"), Some(0));
    assert_eq!(m.find_by_name("b"), None);
    assert_eq!(m.verdict_counts(), (1, 0, 1));
}
