use gard::config::Config;
use gard::tier2_meta::{assess, compute_score, first_upload_time, registry_age_days, score_to_result};
use gard::types::{Ecosystem, TierResult};

fn default_cfg() -> Config {
    Config::default()
}

#[test]
fn old_popular_package_scores_zero() {
    let cfg = default_cfg();
    let score = compute_score(Some(2000), Some(5_000_000), &Ecosystem::Npm, &cfg);
    assert_eq!(score, 0);
}

#[test]
fn brand_new_no_downloads_scores_max() {
    let cfg = default_cfg();
    let score = compute_score(Some(1), Some(3), &Ecosystem::Npm, &cfg);
    assert_eq!(score, 60);
}

#[test]
fn unavailable_meta_adds_penalty() {
    let cfg = default_cfg();
    let score = compute_score(None, None, &Ecosystem::Npm, &cfg);
    assert_eq!(score, 40);
}

#[test]
fn warn_threshold_triggers_warn() {
    let cfg = default_cfg();
    let score = compute_score(Some(1), Some(3), &Ecosystem::PyPI, &cfg);
    assert!(score >= 41);
    let result = score_to_result(score);
    assert!(result.is_flagged());
}

#[test]
fn score_bands() {
    let cfg = default_cfg();
    // 10 days (15) + 800 npm downloads (15)
    assert_eq!(compute_score(Some(10), Some(800), &Ecosystem::Npm, &cfg), 30);
    // 60 days (5) + 5000 npm downloads (5)
    assert_eq!(compute_score(Some(60), Some(5_000), &Ecosystem::Npm, &cfg), 10);
    // 90 days is three times the warn threshold: 0
    assert_eq!(compute_score(Some(90), Some(10_000), &Ecosystem::Npm, &cfg), 0);
    // cargo thresholds: 100 / 500
    assert_eq!(compute_score(Some(1000), Some(99), &Ecosystem::Cargo, &cfg), 30);
    assert_eq!(compute_score(Some(1000), Some(4_999), &Ecosystem::Cargo, &cfg), 5);
    // pypi thresholds: 500 / 2000
    assert_eq!(compute_score(Some(1000), Some(1_999), &Ecosystem::PyPI, &cfg), 15);
}

#[test]
fn huge_thresholds_do_not_overflow() {
    let mut cfg = default_cfg();
    cfg.tier2.npm_warn_threshold = u64::MAX;
    cfg.tier2.npm_flag_threshold = 0;
    assert_eq!(compute_score(Some(1000), Some(u64::MAX - 1), &Ecosystem::Npm, &cfg), 15);
}

#[test]
fn score_reasons() {
    assert_eq!(score_to_result(40), TierResult::Pass);
    assert_eq!(
        score_to_result(45),
        TierResult::Warn { reason: "risk score 45/100 — low download count or recent package".to_string() }
    );
    assert_eq!(
        score_to_result(65),
        TierResult::Warn { reason: "risk score 65/100 — flagged for source analysis".to_string() }
    );
}

#[test]
fn assess_reports_inputs() {
    let out = assess(Some(3), None, &Ecosystem::Npm, &default_cfg());
    assert_eq!(out.score, 50);
    assert_eq!(out.age_days, Some(3));
    assert_eq!(out.downloads, None);
    assert!(matches!(out.result, TierResult::Warn { .. }));
}

// 2024-01-01T00:00:00Z
const JAN_1_2024: i64 = 1_704_067_200;
const DAY: i64 = 86_400;

#[test]
fn registry_age_from_rfc3339() {
    let now = JAN_1_2024 + 10 * DAY;
    assert_eq!(registry_age_days(&Ecosystem::Npm, Some("2024-01-01T00:00:00Z"), now, 0), Some(10));
    assert_eq!(registry_age_days(&Ecosystem::Cargo, Some("2024-01-01T00:00:00.000000+00:00"), now, 0), Some(10));
    // an offset moves the instant: 09:00 at +09:00 is midnight UTC
    assert_eq!(registry_age_days(&Ecosystem::Npm, Some("2024-01-01T09:00:00+09:00"), now, 0), Some(10));
    // one nanosecond short of a day is no day
    assert_eq!(registry_age_days(&Ecosystem::Npm, Some("2024-01-01T00:00:00Z"), JAN_1_2024 + DAY - 1, 999_999_999), Some(0));
    assert_eq!(registry_age_days(&Ecosystem::Npm, Some("2024-01-01T00:00:00Z"), JAN_1_2024 + DAY, 0), Some(1));
    // a time in the future is age 0
    assert_eq!(registry_age_days(&Ecosystem::Npm, Some("2024-01-01T00:00:00Z"), JAN_1_2024 - 5 * DAY, 0), Some(0));
    assert_eq!(registry_age_days(&Ecosystem::Npm, Some("last tuesday"), now, 0), None);
    assert_eq!(registry_age_days(&Ecosystem::Npm, None, now, 0), None);
}

#[test]
fn registry_age_from_pypi_upload_time() {
    let now = JAN_1_2024 + 10 * DAY;
    assert_eq!(registry_age_days(&Ecosystem::PyPI, Some("2024-01-01T00:00:00"), now, 0), Some(10));
    assert_eq!(registry_age_days(&Ecosystem::PyPI, Some("2023-12-31T12:00:00"), now, 0), Some(10));
    // PyPI's form has no zone
    assert_eq!(registry_age_days(&Ecosystem::PyPI, Some("2024-01-01T00:00:00Z"), now, 0), None);
}

#[test]
fn first_upload_time_skips_missing() {
    let times = vec![None, Some("2020-01-01T00:00:00".to_string()), Some("2021-01-01T00:00:00".to_string())];
    assert_eq!(first_upload_time(&times).as_deref(), Some("2020-01-01T00:00:00"));
    assert_eq!(first_upload_time(&vec![None, None]), None);
    assert_eq!(first_upload_time(&vec![]), None);
}
