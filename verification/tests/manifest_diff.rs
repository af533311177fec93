use gard::manifest::{Manifest, ManifestEntry, Tier2Summary, TierSummary};
use gard::manifest_diff::{
    detect_new_packages, diff_packages, extract_cargo_version, find_new_packages,
    normalize_version, parse_cargo_packages, parse_npm_packages, parse_pypi_packages,
    parse_requirement_line, CargoDependency,
};
use gard::types::{Ecosystem, Package};

fn deps(pairs: &[(&str, &str)]) -> Vec<(String, String)> {
    pairs.iter().map(|(n, v)| (n.to_string(), v.to_string())).collect()
}

fn entry(name: &str, version: &str) -> ManifestEntry {
    ManifestEntry {
        name: name.to_string(),
        version: version.to_string(),
        ecosystem: Ecosystem::Npm,
        checked_at: "2026-01-01T00:00:00Z".to_string(),
        tier1: TierSummary { result: "PASS".to_string(), reason: None },
        tier2: Tier2Summary { result: "PASS".to_string(), score: 0, age_days: None, weekly_downloads: None },
        tier3: TierSummary { result: "SKIPPED".to_string(), reason: None },
        final_verdict: "PASS".to_string(),
        ai_tool: None,
        added_by: None,
    }
}

fn manifest_with(entries: Vec<ManifestEntry>) -> Manifest {
    let mut m = Manifest::new(None);
    m.schema = "test".to_string();
    m.packages = entries;
    m
}

#[test]
fn diff_finds_added_packages() {
    let before = vec![Package::new("lodash", "4.17.21", Ecosystem::Npm)];
    let after = vec![
        Package::new("lodash", "4.17.21", Ecosystem::Npm),
        Package::new("axios", "1.7.0", Ecosystem::Npm),
    ];
    let diff = diff_packages(&before, &after);
    assert_eq!(diff.len(), 1);
    assert_eq!(diff[0].name, "axios");
}

#[test]
fn diff_version_bump_is_new() {
    let before = vec![Package::new("express", "4.17.0", Ecosystem::Npm)];
    let after = vec![Package::new("express", "4.18.0", Ecosystem::Npm)];
    let diff = diff_packages(&before, &after);
    assert_eq!(diff.len(), 1);
    assert_eq!(diff[0].version, "4.18.0");
}

#[test]
fn normalize_strips_operators() {
    assert_eq!(normalize_version("^4.17.21"), "4.17.21");
    assert_eq!(normalize_version("~1.7.0"), "1.7.0");
    assert_eq!(normalize_version(">=2.0.0"), "2.0.0");
    assert_eq!(normalize_version("1.0.0"), "1.0.0");
    assert_eq!(normalize_version("*"), "latest");
}

#[test]
fn normalize_edge_cases() {
    assert_eq!(normalize_version(""), "latest");
    assert_eq!(normalize_version("   "), "latest");
    assert_eq!(normalize_version(" ^1.2.3 , <2"), "1.2.3");
    assert_eq!(normalize_version(">=1.0 <2.0"), "1.0");
    assert_eq!(normalize_version("!=1.5,>1.0"), "1.5");
    assert_eq!(normalize_version("^"), "latest");
    assert_eq!(normalize_version("\t~2.1\n"), "2.1");
}

#[test]
fn parse_requirements_txt() {
    let pkgs = parse_pypi_packages("requests==2.28.0\ndjango>=4.0\nflask~=2.0.0\n# comment\n\n");
    assert_eq!(pkgs.len(), 3);
    assert!(pkgs.iter().any(|p| p.name == "requests" && p.version == "2.28.0"));
    assert!(pkgs.iter().any(|p| p.name == "django" && p.version == "4.0"));
    assert!(pkgs.iter().any(|p| p.name == "flask" && p.version == "2.0.0"));
}

#[test]
fn requirement_lines() {
    assert!(parse_requirement_line("-r other.txt").is_none());
    assert!(parse_requirement_line("  --index-url x").is_none());
    assert!(parse_requirement_line("==1.0").is_none());
    let p = parse_requirement_line("  numpy > 1.2 , < 2 ").unwrap();
    assert_eq!(p.name, "numpy");
    assert_eq!(p.version, "1.2");
    assert_eq!(p.ecosystem, Ecosystem::PyPI);
    let p = parse_requirement_line("pandas").unwrap();
    assert_eq!(p.name, "pandas");
    assert_eq!(p.version, "latest");
    // `==` is looked for before `>=`
    let p = parse_requirement_line("a>=1==2").unwrap();
    assert_eq!(p.name, "a>=1");
    assert_eq!(p.version, "2");
    // `<` is not an operator here
    let p = parse_requirement_line("b<3").unwrap();
    assert_eq!(p.name, "b<3");
    assert_eq!(p.version, "latest");
}

#[test]
fn pypi_comments_and_windows_lines() {
    let pkgs = parse_pypi_packages("  # note\r\nrequests==2.0\r\n-e .\r\n   \r\nflask");
    assert_eq!(pkgs.len(), 2);
    assert_eq!(pkgs[0].name, "requests");
    assert_eq!(pkgs[0].version, "2.0");
    assert_eq!(pkgs[1].name, "flask");
    assert_eq!(pkgs[1].version, "latest");
}

#[test]
fn npm_dependencies_normalized() {
    let d = deps(&[("lodash", "^4.17.21"), ("axios", "~1.7.0")]);
    let dev = deps(&[("jest", "29.0.0")]);
    let pkgs = parse_npm_packages(&d, &dev);
    assert_eq!(pkgs.len(), 3);
    assert_eq!((pkgs[0].name.as_str(), pkgs[0].version.as_str()), ("lodash", "4.17.21"));
    assert_eq!((pkgs[1].name.as_str(), pkgs[1].version.as_str()), ("axios", "1.7.0"));
    assert_eq!((pkgs[2].name.as_str(), pkgs[2].version.as_str()), ("jest", "29.0.0"));
    assert!(pkgs.iter().all(|p| p.ecosystem == Ecosystem::Npm));
}

#[test]
fn cargo_versions() {
    assert_eq!(extract_cargo_version(&CargoDependency::Version("^1.0".to_string())), "1.0");
    assert_eq!(
        extract_cargo_version(&CargoDependency::Table { version: Some("=0.4.2".to_string()) }),
        "0.4.2"
    );
    assert_eq!(extract_cargo_version(&CargoDependency::Table { version: None }), "0.0.0");
    assert_eq!(extract_cargo_version(&CargoDependency::Other), "0.0.0");
}

#[test]
fn cargo_lock_preferred_over_manifest() {
    let lock = deps(&[("serde", "1.0.200"), ("anyhow", "1.0.86")]);
    let manifest_deps = vec![("regex".to_string(), CargoDependency::Version("1".to_string()))];
    let from_lock = parse_cargo_packages(Some(&lock), &manifest_deps);
    assert_eq!(from_lock.len(), 2);
    assert_eq!(from_lock[0].name, "serde");
    assert_eq!(from_lock[0].version, "1.0.200");
    assert_eq!(from_lock[1].ecosystem, Ecosystem::Cargo);
    let from_toml = parse_cargo_packages(None, &manifest_deps);
    assert_eq!(from_toml.len(), 1);
    assert_eq!(from_toml[0].name, "regex");
    assert_eq!(from_toml[0].version, "1");
}

#[test]
fn e2e_manifest_diff_finds_new_npm_packages() {
    let current = parse_npm_packages(
        &deps(&[("lodash", "^4.17.21"), ("axios", "~1.7.0"), ("colo0rs", "1.0.0")]),
        &vec![],
    );
    let manifest = manifest_with(vec![entry("lodash", "4.17.21")]);
    let new_pkgs = find_new_packages(&current, &manifest);
    assert_eq!(new_pkgs.len(), 2, "axios and colo0rs should be new");
    assert!(new_pkgs.iter().any(|p| p.name == "axios"));
    assert!(new_pkgs.iter().any(|p| p.name == "colo0rs"));
    assert!(!new_pkgs.iter().any(|p| p.name == "lodash"), "lodash already in manifest");
}

#[test]
fn e2e_manifest_diff_version_bump_is_new() {
    let current = parse_npm_packages(&deps(&[("express", "4.18.0")]), &vec![]);
    let manifest = manifest_with(vec![entry("express", "4.17.0")]);
    let new_pkgs = find_new_packages(&current, &manifest);
    assert_eq!(new_pkgs.len(), 1);
    assert_eq!(new_pkgs[0].version, "4.18.0");
}

#[test]
fn e2e_manifest_diff_empty_lockfile_returns_empty() {
    let manifest = Manifest::new(None);
    let new_pkgs = find_new_packages(&[], &manifest);
    assert!(new_pkgs.is_empty());
}

#[test]
fn e2e_manifest_diff_pypi_packages() {
    let current = parse_pypi_packages("requests==2.28.0\ndjango>=4.0\n");
    let manifest = Manifest::new(None);
    let new_pkgs = find_new_packages(&current, &manifest);
    assert_eq!(new_pkgs.len(), 2);
    assert!(new_pkgs.iter().all(|p| p.ecosystem == Ecosystem::PyPI));
}

#[test]
fn detect_without_manifest_reports_everything() {
    let current = vec![
        Package::new("a", "1", Ecosystem::Npm),
        Package::new("b", "2", Ecosystem::Cargo),
    ];
    assert_eq!(detect_new_packages(None, &current).len(), 2);
    let m = manifest_with(vec![entry("a", "1")]);
    let found = detect_new_packages(Some(&m), &current);
    assert_eq!(found.len(), 1);
    assert_eq!(found[0].name, "b");
}

#[test]
fn diff_with_itself_is_empty() {
    let pkgs = vec![
        Package::new("a", "1", Ecosystem::Npm),
        Package::new("b", "2", Ecosystem::PyPI),
    ];
    assert!(diff_packages(&pkgs, &pkgs).is_empty());
}

fn json_deps(v: &serde_json::Value, key: &str) -> Vec<(String, String)> {
    match v.get(key).and_then(|d| d.as_object()) {
        Some(m) => m.iter().map(|(k, s)| (k.clone(), s.as_str().unwrap().to_string())).collect(),
        None => vec![],
    }
}

#[test]
fn parse_npm_package_json() {
    let text = r#"{
            "dependencies": { "lodash": "^4.17.21", "axios": "~1.7.0" },
            "devDependencies": { "jest": "29.0.0" }
        }"#;
    let v: serde_json::Value = serde_json::from_str(text).unwrap();
    let pkgs = parse_npm_packages(&json_deps(&v, "dependencies"), &json_deps(&v, "devDependencies"));
    assert_eq!(pkgs.len(), 3);
    assert!(pkgs.iter().any(|p| p.name == "lodash" && p.version == "4.17.21"));
    assert!(pkgs.iter().any(|p| p.name == "axios" && p.version == "1.7.0"));
    assert!(pkgs.iter().any(|p| p.name == "jest" && p.version == "29.0.0"));
}

#[test]
fn normalizing_twice_is_normalizing_once() {
    for spec in ["^4.17.21", "~1.7.0", ">=1.0, <2.0", "*", "", "  ", "latest", "==2.31.0", "1.2.3 - 2.0.0", "^^1"] {
        let once = normalize_version(spec);
        assert!(!once.is_empty());
        assert_eq!(normalize_version(&once), once);
    }
}
