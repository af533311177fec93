use gard::tier1_osv::result_from_vulns;
use gard::types::{Ecosystem, Package, TierResult, Verdict};

#[test]
fn ecosystem_names() {
    assert_eq!(Ecosystem::Npm.osv_name(), "npm");
    assert_eq!(Ecosystem::PyPI.osv_name(), "PyPI");
    assert_eq!(Ecosystem::Cargo.osv_name(), "crates.io");
    assert_eq!(Ecosystem::Cargo.display_name(), "cargo");
}

#[test]
fn package_display() {
    let p = Package::new("lodash", "4.17.21", Ecosystem::Npm);
    assert_eq!(p.display_string(), "lodash@4.17.21");
    let q = p.clone();
    assert_eq!(q.name, "lodash");
}

#[test]
fn tier_flags() {
    assert!(TierResult::Block { reason: String::new() }.is_blocking());
    assert!(TierResult::Block { reason: String::new() }.is_flagged());
    assert!(TierResult::Warn { reason: String::new() }.is_flagged());
    assert!(!TierResult::Warn { reason: String::new() }.is_blocking());
    assert!(!TierResult::Error { message: String::new() }.is_flagged());
    assert!(!TierResult::Skipped.is_flagged());
    assert_eq!(Verdict::Block.label(), "BLOCK");
    assert_eq!(Verdict::Pass.label(), "PASS");
}

#[test]
fn osv_results() {
    assert_eq!(result_from_vulns(&vec![]), TierResult::Pass);
    let two = vec!["GHSA-1".to_string(), "CVE-2".to_string()];
    assert_eq!(
        result_from_vulns(&two),
        TierResult::Block { reason: "2 known vulnerability(-ies) [GHSA-1, CVE-2]".to_string() }
    );
    let five: Vec<String> = (1..=5).map(|i| format!("V{i}")).collect();
    assert_eq!(
        result_from_vulns(&five),
        TierResult::Block { reason: "5 known vulnerability(-ies) [V1, V2, V3, …]".to_string() }
    );
}
