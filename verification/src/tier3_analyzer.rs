//! Tier 3: looking for malicious patterns in a package's install scripts and
//! source files, and for signs of obfuscated code.

use vstd::prelude::*;
use vstd::utf8::encode_utf8;
use crate::config::Config;
use crate::text::{
    chars_of, lines, occurs_at, occurs_at_exec, push_decimal, push_str, split_lines,
    string_from_chars, trim, trim_chars, utf8_len, utf8_width, decimal,
};
use crate::types::{Ecosystem, TierResult};

verus! {

broadcast use vstd::string::group_string_axioms;

// ── Findings ────────────────────────────────────────────────────────────────

/// How dangerous a matched pattern is.
#[derive(Debug, Clone, Copy, PartialEq, Eq, Structural)]
pub enum Severity {
    Critical,
    High,
}

/// A matched pattern: file, line (0 for the whole file), severity, label.
#[derive(Debug)]
pub struct Finding {
    pub file: String,
    pub line: usize,
    pub severity: Severity,
    pub label: String,
}

/// A finding as plain values.
pub type FindingView = (Seq<char>, nat, Severity, Seq<char>);

pub open spec fn finding_view(f: Finding) -> FindingView {
    (f.file@, f.line as nat, f.severity, f.label@)
}

pub open spec fn finding_views(s: Seq<Finding>) -> Seq<FindingView> {
    s.map_values(|f: Finding| finding_view(f))
}

// ── Pattern tables ──────────────────────────────────────────────────────────

/// Source patterns that are dangerous on their own: (regex, label).
pub open spec fn critical_patterns() -> Seq<(Seq<char>, Seq<char>)> {
    seq![
        (r"eval\s*\(\s*(Buffer\.from|atob)\s*\("@, "eval(base64_decode()) — obfuscated payload execution"@),
        (r#"require\s*\(\s*['"]child_process['"]\s*\)\s*\.\s*(exec|spawn)\s*\("#@, "child_process.exec/spawn — arbitrary command execution"@),
        (r"subprocess\s*\.\s*(run|call|Popen)\s*\(\s*\["@, "subprocess.run/call/Popen — shell execution"@),
        (r#"require\s*\(\s*['"]net['"]\s*\)\.createConnection\s*\(\s*\d+\s*,"#@, "net.createConnection(port, host) — potential reverse shell"@),
    ]
}

/// Source patterns for reading the environment.
pub open spec fn env_patterns() -> Seq<Seq<char>> {
    seq![r"process\.env"@, r"os\.environ"@]
}

/// Source patterns for calling out to an external URL.
pub open spec fn fetch_patterns() -> Seq<Seq<char>> {
    seq![r#"fetch\s*\(\s*['"]https?://"#@]
}

/// Patterns that are dangerous in an npm install script: (regex, label).
pub open spec fn script_patterns() -> Seq<(Seq<char>, Seq<char>)> {
    seq![
        (r#"https?\.get|fetch\(|axios|require\(['"]http"#@, "network call in install script"@),
        (r"child_process|exec\s*\(|\|\s*(sh|bash)\b|curl\s|wget\s"@, "shell execution in install script"@),
    ]
}

/// The npm scripts that run on install or uninstall.
pub open spec fn dangerous_scripts() -> Seq<Seq<char>> {
    seq!["preinstall"@, "install"@, "postinstall"@, "preuninstall"@, "postuninstall"@]
}

/// The label of the finding for a file that both reads the environment and
/// calls out to an external URL.
pub open spec fn combo_label() -> Seq<char> {
    "env variables accessed and sent to external URL (same file)"@
}

/// A regex and the label of its findings.
pub struct Pattern {
    pub regex: &'static str,
    pub label: &'static str,
}

pub open spec fn pattern_views(s: Seq<Pattern>) -> Seq<(Seq<char>, Seq<char>)> {
    s.map_values(|p: Pattern| (p.regex@, p.label@))
}

fn critical() -> (r: Vec<Pattern>)
    ensures
        pattern_views(r@) == critical_patterns(),
{
    let r = vec![
        Pattern { regex: r"eval\s*\(\s*(Buffer\.from|atob)\s*\(", label: "eval(base64_decode()) — obfuscated payload execution" },
        Pattern { regex: r#"require\s*\(\s*['"]child_process['"]\s*\)\s*\.\s*(exec|spawn)\s*\("#, label: "child_process.exec/spawn — arbitrary command execution" },
        Pattern { regex: r"subprocess\s*\.\s*(run|call|Popen)\s*\(\s*\[", label: "subprocess.run/call/Popen — shell execution" },
        Pattern { regex: r#"require\s*\(\s*['"]net['"]\s*\)\.createConnection\s*\(\s*\d+\s*,"#, label: "net.createConnection(port, host) — potential reverse shell" },
    ];
    assert(pattern_views(r@) =~= critical_patterns());
    r
}

fn script() -> (r: Vec<Pattern>)
    ensures
        pattern_views(r@) == script_patterns(),
{
    let r = vec![
        Pattern { regex: r#"https?\.get|fetch\(|axios|require\(['"]http"#, label: "network call in install script" },
        Pattern { regex: r"child_process|exec\s*\(|\|\s*(sh|bash)\b|curl\s|wget\s", label: "shell execution in install script" },
    ];
    assert(pattern_views(r@) =~= script_patterns());
    r
}

// ── Outside calls ───────────────────────────────────────────────────────────

/// Whether `pattern` compiles as a regex of the `regex` crate and then
/// matches somewhere in `text`.
pub uninterp spec fn regex_match(pattern: Seq<char>, text: Seq<char>) -> bool;

/// Calls `regex::Regex::new(pattern)` and, where that succeeds,
/// `Regex::is_match(text)`. Claimed: the result is `regex_match` of the
/// arguments (false where the pattern does not compile).
#[verifier::external_body]
fn pattern_matches(pattern: &str, text: &str) -> (r: bool)
    ensures
        r == regex_match(pattern@, text@),
{
    match regex::Regex::new(pattern) {
        Ok(re) => re.is_match(text),
        Err(_) => false,
    }
}

/// The string value at `<object_key>.<key>` of the JSON document
/// `content`, or `None` where `content` is not JSON, `object_key` does not
/// name an object or that object's `key` is not a string.
pub uninterp spec fn json_member_string(content: Seq<char>, object_key: Seq<char>, key: Seq<char>) -> Option<
    Seq<char>,
>;

/// Calls `serde_json::from_str::<Value>(content)`, then
/// `Value::get(object_key)`, `Value::as_object`, `Map::get(key)` and
/// `Value::as_str`. Claimed: the result is `json_member_string` of the
/// arguments.
#[verifier::external_body]
fn json_member(content: &str, object_key: &str, key: &str) -> (r: Option<String>)
    ensures
        r matches Some(s) ==> json_member_string(content@, object_key@, key@) == Some(s@),
        r is None ==> json_member_string(content@, object_key@, key@) is None,
{
    let v: serde_json::Value = serde_json::from_str(content).ok()?;
    v.get(object_key)?.as_object()?.get(key)?.as_str().map(|s| s.to_owned())
}

/// The npm script `key` of the `package.json` text `content`.
pub open spec fn json_script(content: Seq<char>, key: Seq<char>) -> Option<Seq<char>> {
    json_member_string(content, "scripts"@, key)
}

// ── Obfuscation ─────────────────────────────────────────────────────────────

/// ASCII hex digits (`u8::is_ascii_hexdigit`).
pub open spec fn is_hex_digit(b: u8) -> bool {
    (48 <= b <= 57) || (65 <= b <= 70) || (97 <= b <= 102)
}

/// The `\xNN` escapes in `b` from `i` on, counted left to right without
/// overlap.
pub open spec fn hex_escapes_from(b: Seq<u8>, i: int) -> nat
    decreases b.len() - i,
{
    if i < 0 || i + 3 >= b.len() {
        0
    } else if b[i] == 92 && b[i + 1] == 120 && is_hex_digit(b[i + 2]) && is_hex_digit(b[i + 3]) {
        1 + hex_escapes_from(b, i + 4)
    } else {
        hex_escapes_from(b, i + 1)
    }
}

/// The number of `\xNN` escapes in the UTF-8 bytes of `s`.
pub open spec fn spec_hex_escapes(s: Seq<char>) -> nat {
    hex_escapes_from(encode_utf8(s), 0)
}

/// The occurrences of `p` in `s` from `i` on, counted left to right without
/// overlap (`str::matches(..).count()`).
pub open spec fn count_from(s: Seq<char>, p: Seq<char>, i: int) -> nat
    decreases s.len() + 1 - i,
{
    if p.len() == 0 || i < 0 || i + p.len() > s.len() {
        0
    } else if occurs_at(s, p, i) {
        1 + count_from(s, p, i + p.len())
    } else {
        count_from(s, p, i + 1)
    }
}

/// The number of lines in `ls` longer than `limit` bytes.
pub open spec fn long_lines(ls: Seq<Seq<char>>, limit: nat) -> nat
    decreases ls.len(),
{
    if ls.len() == 0 {
        0
    } else {
        long_lines(ls.drop_last(), limit) + if utf8_len(ls.last()) > limit {
            1nat
        } else {
            0nat
        }
    }
}

pub open spec fn hex_var_points(n: nat) -> nat {
    if n > 10 {
        40
    } else if n > 3 {
        20
    } else {
        0
    }
}

pub open spec fn hex_escape_points(n: nat) -> nat {
    if n > 50 {
        30
    } else if n > 10 {
        15
    } else {
        0
    }
}

pub open spec fn long_line_points(long: nat, total: nat) -> nat {
    if long * 10 > total * 8 {
        30
    } else if long * 4 > total {
        15
    } else {
        0
    }
}

/// The obfuscation score of a file: points for `_0x` names, for `\xNN`
/// escapes and for the share of lines longer than 500 bytes, capped at 100.
pub open spec fn spec_obfuscation_score(content: Seq<char>) -> nat {
    let ls = lines(content);
    let total = if ls.len() > 1 { ls.len() } else { 1 };
    let s = hex_var_points(count_from(content, "_0x"@, 0)) + hex_escape_points(
        spec_hex_escapes(content),
    ) + long_line_points(long_lines(ls, 500), total);
    if s > 100 {
        100
    } else {
        s
    }
}

/// The number of `\xNN` hex escapes in `s`, counted left to right.
pub fn count_hex_escapes(s: &str) -> (r: usize)
    ensures
        r == spec_hex_escapes(s@),
{
    let b = s.as_bytes();
    let n = b.len();
    let mut count: usize = 0;
    let mut i: usize = 0;
    while i < n && n - i > 3
        invariant
            n == b@.len(),
            b@ == encode_utf8(s@),
            i <= n,
            count <= i,
            count + hex_escapes_from(b@, i as int) == hex_escapes_from(b@, 0),
        decreases n - i,
    {
        if b[i] == 92u8 && b[i + 1] == 120u8 && is_hex_digit_exec(b[i + 2]) && is_hex_digit_exec(
            b[i + 3],
        ) {
            count += 1;
            i += 4;
        } else {
            i += 1;
        }
    }
    count
}

fn is_hex_digit_exec(b: u8) -> (r: bool)
    ensures
        r == is_hex_digit(b),
{
    (48 <= b && b <= 57) || (65 <= b && b <= 70) || (97 <= b && b <= 102)
}

/// The occurrences of `p` in `v`, counted left to right without overlap.
fn count_occurrences(v: &Vec<char>, p: &Vec<char>) -> (r: usize)
    requires
        p.len() > 0,
    ensures
        r == count_from(v@, p@, 0),
{
    let n = v.len();
    let m = p.len();
    let mut count: usize = 0;
    let mut i: usize = 0;
    while i < n && n - i >= m
        invariant
            n == v.len(),
            m == p.len(),
            m > 0,
            i <= n,
            count <= i,
            count + count_from(v@, p@, i as int) == count_from(v@, p@, 0),
        decreases n - i,
    {
        if occurs_at_exec(v, p, i) {
            count += 1;
            i += m;
        } else {
            i += 1;
        }
    }
    count
}

/// Whether `l` takes more than `limit` bytes in UTF-8.
fn utf8_len_exceeds(l: &Vec<char>, limit: u64) -> (r: bool)
    requires
        limit < 0x1_0000_0000,
    ensures
        r == (utf8_len(l@) > limit),
{
    let n = l.len();
    let mut acc: u64 = 0;
    for i in 0..n
        invariant
            n == l.len(),
            acc == utf8_len(l@.take(i as int)),
            acc <= limit,
            limit < 0x1_0000_0000,
    {
        proof {
            assert(l@.take(i + 1).drop_last() == l@.take(i as int));
        }
        let c = l[i];
        let u = c as u32;
        let w: u64 = if u < 0x80 {
            1
        } else if u < 0x800 {
            2
        } else if u < 0x10000 {
            3
        } else {
            4
        };
        acc = acc + w;
        if acc > limit {
            proof {
                lemma_utf8_len_prefix_le(l@, i + 1);
            }
            return true;
        }
    }
    proof {
        assert(l@.take(n as int) == l@);
    }
    false
}

/// A prefix takes no more bytes than the whole.
proof fn lemma_utf8_len_prefix_le(s: Seq<char>, k: int)
    requires
        0 <= k <= s.len(),
    ensures
        utf8_len(s.take(k)) <= utf8_len(s),
    decreases s.len() - k,
{
    if k < s.len() {
        lemma_utf8_len_prefix_le(s, k + 1);
        assert(s.take(k + 1).drop_last() == s.take(k));
    } else {
        assert(s.take(k) == s);
    }
}

/// The obfuscation score (0–100) of one file's content.
pub fn file_obfuscation_score(content: &str) -> (r: u8)
    ensures
        r == spec_obfuscation_score(content@),
        r <= 100,
{
    let v = chars_of(content);
    let ls = split_lines(&v);
    let ghost lv = ls.deep_view();
    let n = ls.len();
    let total: usize = if n > 1 {
        n
    } else {
        1
    };
    let hex_pat = chars_of("_0x");
    proof {
        reveal_strlit("_0x");
    }
    let hex_vars = count_occurrences(&v, &hex_pat);
    let hex_esc = count_hex_escapes(content);
    let mut long: usize = 0;
    for i in 0..n
        invariant
            n == ls.len(),
            lv == ls.deep_view(),
            long == long_lines(lv.take(i as int), 500),
            long <= i,
    {
        proof {
            assert(lv.take(i + 1).drop_last() == lv.take(i as int));
            assert(ls[i as int]@ == lv[i as int]);
        }
        if utf8_len_exceeds(&ls[i], 500) {
            long += 1;
        }
    }
    proof {
        assert(lv.take(n as int) == lv);
    }
    let a: u8 = if hex_vars > 10 {
        40
    } else if hex_vars > 3 {
        20
    } else {
        0
    };
    let b: u8 = if hex_esc > 50 {
        30
    } else if hex_esc > 10 {
        15
    } else {
        0
    };
    let long_w = long as u128;
    let total_w = total as u128;
    let c: u8 = if long_w * 10 > total_w * 8 {
        30
    } else if long_w * 4 > total_w {
        15
    } else {
        0
    };
    let s = a + b + c;
    if s > 100 {
        100
    } else {
        s
    }
}

/// Whether the first non-blank line of `ls` is longer than 1000 bytes.
pub open spec fn first_nonblank_is_long(ls: Seq<Seq<char>>) -> bool
    decreases ls.len(),
{
    if ls.len() == 0 {
        false
    } else if trim(ls[0]).len() > 0 {
        utf8_len(ls[0]) > 1000
    } else {
        first_nonblank_is_long(ls.drop_first())
    }
}

/// Whether the content looks minified: its first non-blank line is longer
/// than 1000 bytes.
pub open spec fn spec_is_minified(content: Seq<char>) -> bool {
    first_nonblank_is_long(lines(content))
}

/// Whether the content looks minified.
pub fn is_minified(content: &str) -> (r: bool)
    ensures
        r == spec_is_minified(content@),
{
    let v = chars_of(content);
    let ls = split_lines(&v);
    let ghost lv = ls.deep_view();
    let n = ls.len();
    proof {
        assert(lv.skip(0) == lv);
    }
    for i in 0..n
        invariant
            n == ls.len(),
            lv == ls.deep_view(),
            lv == lines(content@),
            first_nonblank_is_long(lv) == first_nonblank_is_long(lv.skip(i as int)),
    {
        proof {
            assert(lv.skip(i as int).drop_first() == lv.skip(i + 1));
            assert(lv.skip(i as int)[0] == lv[i as int]);
            assert(ls[i as int]@ == lv[i as int]);
        }
        let t = trim_chars(&ls[i]);
        if t.len() > 0 {
            assert(first_nonblank_is_long(lv.skip(i as int)) == (utf8_len(lv[i as int]) > 1000));
            let r = utf8_len_exceeds(&ls[i], 1000);
            assert(r == first_nonblank_is_long(lv));
            assert(lv == lines(content@));
            return r;
        }
    }
    proof {
        assert(lv.skip(n as int).len() == 0);
    }
    false
}

/// The highest obfuscation score among the non-empty files, 0 if none.
pub open spec fn max_obfuscation(files: Seq<SourceFile>) -> nat
    decreases files.len(),
{
    if files.len() == 0 {
        0
    } else {
        let rest = max_obfuscation(files.drop_last());
        let here = if files.last().content@.len() > 0 {
            spec_obfuscation_score(files.last().content@)
        } else {
            0
        };
        if here > rest {
            here
        } else {
            rest
        }
    }
}

/// A source file of the package: its path relative to the package root,
/// its size in bytes, and its content.
#[derive(Debug)]
pub struct SourceFile {
    pub path: String,
    pub size: u64,
    pub content: String,
}

/// The obfuscation score of a package: the highest among its files.
pub fn score_obfuscation(sources: &Vec<SourceFile>) -> (r: u8)
    ensures
        r == max_obfuscation(sources@),
        r <= 100,
{
    let n = sources.len();
    let mut best: u8 = 0;
    for i in 0..n
        invariant
            n == sources.len(),
            best == max_obfuscation(sources@.take(i as int)),
            best <= 100,
    {
        proof {
            assert(sources@.take(i + 1).drop_last() == sources@.take(i as int));
        }
        let f = &sources[i];
        if !f.content.as_str().is_empty() {
            let s = file_obfuscation_score(f.content.as_str());
            if s > best {
                best = s;
            }
        }
    }
    proof {
        assert(sources@.take(n as int) == sources@);
    }
    best
}

} // verus!

verus! {

// ── Pattern scanning ────────────────────────────────────────────────────────

/// Findings at `file:line` for the patterns among `pats` whose regex
/// matches `text`, in table order.
pub open spec fn hits(
    pats: Seq<(Seq<char>, Seq<char>)>,
    text: Seq<char>,
    file: Seq<char>,
    line: nat,
    sev: Severity,
) -> Seq<FindingView>
    decreases pats.len(),
{
    if pats.len() == 0 {
        Seq::empty()
    } else {
        hits(pats.drop_last(), text, file, line, sev) + if regex_match(pats.last().0, text) {
            seq![(file, line, sev, pats.last().1)]
        } else {
            Seq::empty()
        }
    }
}

/// Appends the findings of the patterns that match `text`.
fn push_hits(
    out: &mut Vec<Finding>,
    pats: &Vec<Pattern>,
    text: &str,
    file: &String,
    line: usize,
    sev: Severity,
)
    ensures
        finding_views(final(out)@) == finding_views(old(out)@) + hits(
            pattern_views(pats@),
            text@,
            file@,
            line as nat,
            sev,
        ),
{
    let ghost start = finding_views(out@);
    let n = pats.len();
    for j in 0..n
        invariant
            n == pats.len(),
            finding_views(out@) == start + hits(
                pattern_views(pats@.take(j as int)),
                text@,
                file@,
                line as nat,
                sev,
            ),
    {
        proof {
            assert(pattern_views(pats@.take(j + 1)).drop_last() == pattern_views(pats@.take(j as int)));
            assert(pattern_views(pats@.take(j + 1)).last() == (pats@[j as int].regex@, pats@[j as int].label@));
        }
        if pattern_matches(pats[j].regex, text) {
            let ghost prev = out@;
            let f = Finding {
                file: file.clone(),
                line,
                severity: sev,
                label: pats[j].label.to_owned(),
            };
            out.push(f);
            proof {
                assert(finding_views(out@) == finding_views(prev).push(finding_view(f)));
            }
        }
    }
    proof {
        assert(pats@.take(n as int) == pats@);
    }
}

/// Install-script findings for the scripts named `keys` of `content`.
pub open spec fn script_hits(content: Seq<char>, keys: Seq<Seq<char>>) -> Seq<FindingView>
    decreases keys.len(),
{
    if keys.len() == 0 {
        Seq::empty()
    } else {
        script_hits(content, keys.drop_last()) + match json_script(content, keys.last()) {
            Some(v) => hits(script_patterns(), v, "package.json"@, 0, Severity::Critical),
            None => Seq::empty(),
        }
    }
}

/// The install-script findings of a package: for npm, every script pattern
/// that matches one of the install and uninstall scripts of `package.json`,
/// script by script; nothing for other ecosystems or without `package.json`.
pub open spec fn spec_script_findings(package_json: Option<Seq<char>>, eco: Ecosystem) -> Seq<
    FindingView,
> {
    if eco != Ecosystem::Npm {
        Seq::empty()
    } else {
        match package_json {
            Some(c) => script_hits(c, dangerous_scripts()),
            None => Seq::empty(),
        }
    }
}

pub open spec fn opt_view(o: Option<&str>) -> Option<Seq<char>> {
    match o {
        Some(s) => Some(s@),
        None => None,
    }
}

/// Findings in the npm install scripts of `package.json`.
pub fn scan_install_scripts(package_json: Option<&str>, ecosystem: &Ecosystem) -> (r: Vec<Finding>)
    ensures
        finding_views(r@) == spec_script_findings(opt_view(package_json), *ecosystem),
{
    let mut r: Vec<Finding> = Vec::new();
    proof {
        assert(finding_views(r@) =~= Seq::<FindingView>::empty());
    }
    if *ecosystem != Ecosystem::Npm {
        return r;
    }
    let content = match package_json {
        Some(c) => c,
        None => {
            return r;
        },
    };
    let keys: Vec<&'static str> = vec!["preinstall", "install", "postinstall", "preuninstall", "postuninstall"];
    let ghost kv = keys@.map_values(|k: &'static str| k@);
    assert(kv =~= dangerous_scripts());
    let pats = script();
    let file = "package.json".to_owned();
    let n = keys.len();
    for i in 0..n
        invariant
            n == keys.len(),
            kv == keys@.map_values(|k: &'static str| k@),
            pattern_views(pats@) == script_patterns(),
            file@ == "package.json"@,
            finding_views(r@) == script_hits(content@, kv.take(i as int)),
    {
        proof {
            assert(kv.take(i + 1).drop_last() == kv.take(i as int));
            assert(kv.take(i + 1).last() == keys@[i as int]@);
        }
        match json_member(content, "scripts", keys[i]) {
            Some(v) => {
                push_hits(&mut r, &pats, v.as_str(), &file, 0, Severity::Critical);
            },
            None => {},
        }
    }
    proof {
        assert(kv.take(n as int) == kv);
    }
    r
}

/// Whether some regex of `pats` matches `text`.
pub open spec fn line_matches(pats: Seq<Seq<char>>, text: Seq<char>) -> bool {
    exists|j: int| 0 <= j < pats.len() && regex_match(pats[j], text)
}

/// Whether some regex of `pats` matches some line of `ls`.
pub open spec fn any_line_matches(pats: Seq<Seq<char>>, ls: Seq<Seq<char>>) -> bool
    decreases ls.len(),
{
    if ls.len() == 0 {
        false
    } else {
        any_line_matches(pats, ls.drop_last()) || line_matches(pats, ls.last())
    }
}

/// Critical findings line by line: line `k` (1-based) gets one finding per
/// critical pattern that matches it.
pub open spec fn critical_line_hits(ls: Seq<Seq<char>>, file: Seq<char>) -> Seq<FindingView>
    decreases ls.len(),
{
    if ls.len() == 0 {
        Seq::empty()
    } else {
        critical_line_hits(ls.drop_last(), file) + hits(
            critical_patterns(),
            ls.last(),
            file,
            ls.len(),
            Severity::Critical,
        )
    }
}

/// The findings of one file: its critical lines, then one more critical
/// finding (at line 0) where the file both reads the environment and calls
/// out to an external URL.
pub open spec fn file_findings(f: SourceFile) -> Seq<FindingView> {
    let ls = lines(f.content@);
    critical_line_hits(ls, f.path@) + if any_line_matches(env_patterns(), ls) && any_line_matches(
        fetch_patterns(),
        ls,
    ) {
        seq![(f.path@, 0nat, Severity::Critical, combo_label())]
    } else {
        Seq::empty()
    }
}

/// Whether a file is scanned: not larger than the size limit and, where
/// minified files are skipped, not minified.
pub open spec fn is_scanned(f: SourceFile, max_file_size_kb: u64, skip_minified: bool) -> bool {
    !(f.size > max_file_size_kb * 1024) && !(skip_minified && spec_is_minified(f.content@))
}

/// The findings of all scanned files, file by file.
pub open spec fn source_findings(files: Seq<SourceFile>, max_file_size_kb: u64, skip_minified: bool) -> Seq<
    FindingView,
>
    decreases files.len(),
{
    if files.len() == 0 {
        Seq::empty()
    } else {
        source_findings(files.drop_last(), max_file_size_kb, skip_minified) + if is_scanned(
            files.last(),
            max_file_size_kb,
            skip_minified,
        ) {
            file_findings(files.last())
        } else {
            Seq::empty()
        }
    }
}

/// Whether some regex of `pats` matches `text`.
fn some_pattern_matches(pats: &Vec<&'static str>, text: &str) -> (r: bool)
    ensures
        r == line_matches(pats@.map_values(|p: &'static str| p@), text@),
{
    let ghost pv = pats@.map_values(|p: &'static str| p@);
    let n = pats.len();
    for j in 0..n
        invariant
            n == pats.len(),
            pv == pats@.map_values(|p: &'static str| p@),
            forall|k: int| 0 <= k < j ==> !regex_match(pv[k], text@),
    {
        if pattern_matches(pats[j], text) {
            assert(regex_match(pv[j as int], text@));
            return true;
        }
    }
    false
}

fn env_pattern_list() -> (r: Vec<&'static str>)
    ensures
        r@.map_values(|p: &'static str| p@) == env_patterns(),
{
    let r = vec![r"process\.env", r"os\.environ"];
    assert(r@.map_values(|p: &'static str| p@) =~= env_patterns());
    r
}

fn fetch_pattern_list() -> (r: Vec<&'static str>)
    ensures
        r@.map_values(|p: &'static str| p@) == fetch_patterns(),
{
    let r = vec![r#"fetch\s*\(\s*['"]https?://"#];
    assert(r@.map_values(|p: &'static str| p@) =~= fetch_patterns());
    r
}

/// Appends the findings of one file.
fn scan_file(out: &mut Vec<Finding>, f: &SourceFile, crit: &Vec<Pattern>, env: &Vec<&'static str>, fetch: &Vec<&'static str>)
    requires
        pattern_views(crit@) == critical_patterns(),
        env@.map_values(|p: &'static str| p@) == env_patterns(),
        fetch@.map_values(|p: &'static str| p@) == fetch_patterns(),
    ensures
        finding_views(final(out)@) == finding_views(old(out)@) + file_findings(*f),
{
    let ghost start = finding_views(out@);
    let v = chars_of(f.content.as_str());
    let ls = split_lines(&v);
    let ghost lv = ls.deep_view();
    let n = ls.len();
    let mut has_env = false;
    let mut has_fetch = false;
    proof {
        assert(lv.take(0) =~= Seq::<Seq<char>>::empty());
        assert(start + Seq::<FindingView>::empty() == start);
    }
    for i in 0..n
        invariant
            n == ls.len(),
            lv == ls.deep_view(),
            lv == lines(f.content@),
            pattern_views(crit@) == critical_patterns(),
            env@.map_values(|p: &'static str| p@) == env_patterns(),
            fetch@.map_values(|p: &'static str| p@) == fetch_patterns(),
            finding_views(out@) == start + critical_line_hits(lv.take(i as int), f.path@),
            has_env == any_line_matches(env_patterns(), lv.take(i as int)),
            has_fetch == any_line_matches(fetch_patterns(), lv.take(i as int)),
    {
        proof {
            assert(lv.take(i + 1).drop_last() == lv.take(i as int));
            assert(lv.take(i + 1).last() == lv[i as int]);
            assert(ls[i as int]@ == lv[i as int]);
        }
        let line = string_from_chars(&ls[i]);
        push_hits(out, crit, line.as_str(), &f.path, i + 1, Severity::Critical);
        if some_pattern_matches(env, line.as_str()) {
            has_env = true;
        }
        if some_pattern_matches(fetch, line.as_str()) {
            has_fetch = true;
        }
    }
    proof {
        assert(lv.take(n as int) == lv);
    }
    if has_env && has_fetch {
        let ghost prev = out@;
        let combo = Finding {
            file: f.path.clone(),
            line: 0,
            severity: Severity::Critical,
            label: "env variables accessed and sent to external URL (same file)".to_owned(),
        };
        out.push(combo);
        proof {
            assert(finding_views(out@) == finding_views(prev).push(finding_view(combo)));
        }
    } else {
        proof {
            assert(finding_views(out@) + Seq::<FindingView>::empty() == finding_views(out@));
        }
    }
}

/// Whether `size` is over the limit of `kb` kilobytes.
fn over_size_limit(size: u64, kb: u64) -> (r: bool)
    ensures
        r == (size > kb * 1024),
{
    match kb.checked_mul(1024) {
        Some(limit) => size > limit,
        None => false,
    }
}

/// Findings in the package's source files (critical patterns line by line,
/// and the environment-plus-fetch combination per file), skipping files
/// over the size limit and, where configured, minified files.
pub fn scan_source_files(sources: &Vec<SourceFile>, cfg: &Config) -> (r: Vec<Finding>)
    ensures
        finding_views(r@) == source_findings(
            sources@,
            cfg.tier3.max_file_size_kb,
            cfg.tier3.skip_minified,
        ),
{
    let crit = critical();
    let env = env_pattern_list();
    let fetch = fetch_pattern_list();
    let max_kb = cfg.tier3.max_file_size_kb;
    let skip_min = cfg.tier3.skip_minified;
    let mut r: Vec<Finding> = Vec::new();
    proof {
        assert(finding_views(r@) =~= Seq::<FindingView>::empty());
    }
    let n = sources.len();
    for i in 0..n
        invariant
            n == sources.len(),
            max_kb == cfg.tier3.max_file_size_kb,
            skip_min == cfg.tier3.skip_minified,
            pattern_views(crit@) == critical_patterns(),
            env@.map_values(|p: &'static str| p@) == env_patterns(),
            fetch@.map_values(|p: &'static str| p@) == fetch_patterns(),
            finding_views(r@) == source_findings(sources@.take(i as int), max_kb, skip_min),
    {
        proof {
            assert(sources@.take(i + 1).drop_last() == sources@.take(i as int));
            assert(sources@.take(i + 1).last() == sources@[i as int]);
        }
        let f = &sources[i];
        let scanned = !over_size_limit(f.size, max_kb) && !(skip_min && is_minified(
            f.content.as_str(),
        ));
        if scanned {
            scan_file(&mut r, f, &crit, &env, &fetch);
        } else {
            proof {
                assert(finding_views(r@) + Seq::<FindingView>::empty() == finding_views(r@));
            }
        }
    }
    proof {
        assert(sources@.take(n as int) == sources@);
    }
    r
}

} // verus!

verus! {

// ── Verdict ─────────────────────────────────────────────────────────────────

/// What the analyzer reads of a package: the text of its `package.json`
/// and its source files.
#[derive(Debug)]
pub struct PackageFiles {
    pub package_json: Option<String>,
    pub sources: Vec<SourceFile>,
}

/// The findings and obfuscation score of a package.
#[derive(Debug)]
pub struct PackageAnalysis {
    pub script_findings: Vec<Finding>,
    pub source_findings: Vec<Finding>,
    pub obfuscation_score: u8,
}

/// The number of findings of severity `sev`.
pub open spec fn count_severity(s: Seq<FindingView>, sev: Severity) -> nat
    decreases s.len(),
{
    if s.len() == 0 {
        0
    } else {
        count_severity(s.drop_last(), sev) + if s.last().2 == sev {
            1nat
        } else {
            0nat
        }
    }
}

proof fn lemma_severity_counts_partition(s: Seq<FindingView>)
    ensures
        count_severity(s, Severity::Critical) + count_severity(s, Severity::High) == s.len(),
    decreases s.len(),
{
    if s.len() > 0 {
        lemma_severity_counts_partition(s.drop_last());
    }
}

/// The decision on the findings: 2 (block), 1 (warn) or 0 (pass), with the
/// reason given.
/// - any critical install-script finding blocks, naming the first finding;
/// - two or more critical source findings block;
/// - an obfuscation score at the block threshold blocks;
/// - one critical or any high source finding warns;
/// - an obfuscation score of 70 or more warns.
pub open spec fn analysis_outcome(
    script: Seq<FindingView>,
    source: Seq<FindingView>,
    obs: u8,
    block: u8,
) -> (nat, Seq<char>) {
    let sc = count_severity(script, Severity::Critical);
    let crit = count_severity(source, Severity::Critical);
    let high = count_severity(source, Severity::High);
    if sc > 0 {
        (2, "malicious install script: "@ + script[0].3)
    } else if crit >= 2 {
        (2, decimal(crit) + " critical patterns in source"@)
    } else if obs >= block {
        (2, "obfuscation score "@ + decimal(obs as nat) + "/100 ≥ block threshold "@ + decimal(block as nat))
    } else if crit == 1 || high >= 1 {
        (1, decimal(crit + high) + " high-severity pattern(s) in source"@)
    } else if obs >= 70 {
        (1, "obfuscation score "@ + decimal(obs as nat) + "/100"@)
    } else {
        (0, Seq::empty())
    }
}

/// Whether the tier result carries the decision `o`.
pub open spec fn carries(r: TierResult, o: (nat, Seq<char>)) -> bool {
    match r {
        TierResult::Pass => o.0 == 0,
        TierResult::Warn { reason } => o.0 == 1 && reason@ == o.1,
        TierResult::Block { reason } => o.0 == 2 && reason@ == o.1,
        _ => false,
    }
}

fn count_findings(s: &Vec<Finding>, sev: Severity) -> (r: usize)
    ensures
        r == count_severity(finding_views(s@), sev),
        r <= s.len(),
{
    let n = s.len();
    let mut c: usize = 0;
    for i in 0..n
        invariant
            n == s.len(),
            c == count_severity(finding_views(s@.take(i as int)), sev),
            c <= i,
    {
        proof {
            assert(finding_views(s@.take(i + 1)).drop_last() == finding_views(s@.take(i as int)));
        }
        if s[i].severity == sev {
            c += 1;
        }
    }
    proof {
        assert(s@.take(n as int) == s@);
    }
    c
}

fn decide(a: &PackageAnalysis, obs_block: u8) -> (r: TierResult)
    ensures
        carries(
            r,
            analysis_outcome(
                finding_views(a.script_findings@),
                finding_views(a.source_findings@),
                a.obfuscation_score,
                obs_block,
            ),
        ),
{
    let script_crits = count_findings(&a.script_findings, Severity::Critical);
    let src_crits = count_findings(&a.source_findings, Severity::Critical);
    let src_highs = count_findings(&a.source_findings, Severity::High);
    let obs = a.obfuscation_score;
    proof {
        lemma_severity_counts_partition(finding_views(a.source_findings@));
    }
    if script_crits > 0 {
        let mut out: Vec<char> = Vec::new();
        push_str(&mut out, "malicious install script: ");
        push_str(&mut out, a.script_findings[0].label.as_str());
        return TierResult::Block { reason: string_from_chars(&out) };
    }
    if src_crits >= 2 {
        let mut out: Vec<char> = Vec::new();
        push_decimal(&mut out, src_crits as u64);
        push_str(&mut out, " critical patterns in source");
        proof {
            assert(Seq::<char>::empty() + decimal(src_crits as nat) == decimal(src_crits as nat));
        }
        return TierResult::Block { reason: string_from_chars(&out) };
    }
    if obs >= obs_block {
        let mut out: Vec<char> = Vec::new();
        push_str(&mut out, "obfuscation score ");
        push_decimal(&mut out, obs as u64);
        push_str(&mut out, "/100 ≥ block threshold ");
        push_decimal(&mut out, obs_block as u64);
        return TierResult::Block { reason: string_from_chars(&out) };
    }
    if src_crits == 1 || src_highs >= 1 {
        let mut out: Vec<char> = Vec::new();
        push_decimal(&mut out, (src_crits + src_highs) as u64);
        push_str(&mut out, " high-severity pattern(s) in source");
        proof {
            let k = (src_crits + src_highs) as nat;
            assert(Seq::<char>::empty() + decimal(k) == decimal(k));
        }
        return TierResult::Warn { reason: string_from_chars(&out) };
    }
    if obs >= 70 {
        let mut out: Vec<char> = Vec::new();
        push_str(&mut out, "obfuscation score ");
        push_decimal(&mut out, obs as u64);
        push_str(&mut out, "/100");
        return TierResult::Warn { reason: string_from_chars(&out) };
    }
    TierResult::Pass
}

/// The analysis of a package: install-script findings, source findings and
/// obfuscation score.
pub fn run_analysis(files: &PackageFiles, ecosystem: &Ecosystem, cfg: &Config) -> (r: PackageAnalysis)
    ensures
        finding_views(r.script_findings@) == spec_script_findings(
            opt_string_view(files.package_json),
            *ecosystem,
        ),
        finding_views(r.source_findings@) == source_findings(
            files.sources@,
            cfg.tier3.max_file_size_kb,
            cfg.tier3.skip_minified,
        ),
        r.obfuscation_score == max_obfuscation(files.sources@),
{
    let pj: Option<&str> = match &files.package_json {
        Some(s) => Some(s.as_str()),
        None => None,
    };
    PackageAnalysis {
        script_findings: scan_install_scripts(pj, ecosystem),
        source_findings: scan_source_files(&files.sources, cfg),
        obfuscation_score: score_obfuscation(&files.sources),
    }
}

pub open spec fn opt_string_view(o: Option<String>) -> Option<Seq<char>> {
    match o {
        Some(s) => Some(s@),
        None => None,
    }
}

/// The tier-3 result for a package's files (see `analysis_outcome`).
pub fn analyze(files: &PackageFiles, ecosystem: &Ecosystem, cfg: &Config) -> (r: TierResult)
    ensures
        carries(
            r,
            analysis_outcome(
                spec_script_findings(opt_string_view(files.package_json), *ecosystem),
                source_findings(files.sources@, cfg.tier3.max_file_size_kb, cfg.tier3.skip_minified),
                max_obfuscation(files.sources@) as u8,
                cfg.tier3.obfuscation_block_score,
            ),
        ),
{
    let a = run_analysis(files, ecosystem, cfg);
    decide(&a, cfg.tier3.obfuscation_block_score)
}

/// The file extensions of an ecosystem's source files.
pub fn source_extensions(eco: &Ecosystem) -> (r: Vec<&'static str>)
    ensures
        r@.map_values(|e: &'static str| e@) == spec_source_extensions(*eco),
{
    let r = match eco {
        Ecosystem::Npm => vec!["js", "mjs", "cjs"],
        Ecosystem::PyPI => vec!["py"],
        Ecosystem::Cargo => vec!["rs"],
    };
    assert(r@.map_values(|e: &'static str| e@) =~= spec_source_extensions(*eco));
    r
}

pub open spec fn spec_source_extensions(eco: Ecosystem) -> Seq<Seq<char>> {
    match eco {
        Ecosystem::Npm => seq!["js"@, "mjs"@, "cjs"@],
        Ecosystem::PyPI => seq!["py"@],
        Ecosystem::Cargo => seq!["rs"@],
    }
}

} // verus!

verus! {

/// The index of the last `c` in `s`.
pub open spec fn last_index_of(s: Seq<char>, c: char) -> Option<int>
    decreases s.len(),
{
    if s.len() == 0 {
        None
    } else if s.last() == c {
        Some(s.len() - 1)
    } else {
        last_index_of(s.drop_last(), c)
    }
}

/// The extension of a file name, as `Path::extension` gives it: the text
/// after the last `.`, unless there is no `.` or the only one starts the
/// name.
pub open spec fn spec_extension(name: Seq<char>) -> Option<Seq<char>> {
    match last_index_of(name, '.') {
        Some(k) => if k == 0 {
            None
        } else {
            Some(name.skip(k + 1))
        },
        None => None,
    }
}

/// Whether a file of this name is a source file of the ecosystem.
pub open spec fn spec_is_source_file(name: Seq<char>, eco: Ecosystem) -> bool {
    match spec_extension(name) {
        Some(e) => spec_source_extensions(eco).contains(e),
        None => false,
    }
}

/// Whether a file of this name (the last component of its path) is a
/// source file of the ecosystem, by its extension.
pub fn is_source_file(file_name: &str, eco: &Ecosystem) -> (r: bool)
    ensures
        r == spec_is_source_file(file_name@, *eco),
{
    let v = chars_of(file_name);
    let n = v.len();
    let mut k = n;
    proof {
        assert(v@.take(n as int) == v@);
    }
    while k > 0 && v[k - 1] != '.'
        invariant
            k <= n == v.len(),
            last_index_of(v@, '.') == last_index_of(v@.take(k as int), '.'),
        decreases k,
    {
        assert(v@.take(k as int).drop_last() == v@.take(k - 1));
        k -= 1;
    }
    proof {
        assert(v@.take(n as int) == v@);
        if k > 0 {
            assert(v@.take(k as int).last() == v@[k - 1]);
        }
    }
    if k <= 1 {
        return false;
    }
    let ext = crate::text::slice_chars(&v, k, n);
    let exts = source_extensions(eco);
    let ghost ev = exts@.map_values(|e: &'static str| e@);
    assert(spec_extension(file_name@) == Some(ext@));
    let m = exts.len();
    for j in 0..m
        invariant
            m == exts.len(),
            ev == exts@.map_values(|e: &'static str| e@),
            ev == spec_source_extensions(*eco),
            ext@ == v@.skip(k as int),
            spec_extension(file_name@) == Some(ext@),
            forall|i: int| 0 <= i < j ==> ev[i] != ext@,
    {
        if crate::text::eq_str(&ext, exts[j]) {
            assert(ev[j as int] == ext@);
            return true;
        }
    }
    false
}

} // verus!

verus! {

// ── Laws ────────────────────────────────────────────────────────────────────

/// How a tier-3 decision ranks: 2 for a block, 1 for a warning, 0 for a pass.
pub open spec fn outcome_rank(script: Seq<FindingView>, source: Seq<FindingView>, obs: u8, block: u8) -> nat {
    analysis_outcome(script, source, obs, block).0
}

proof fn lemma_count_push(s: Seq<FindingView>, f: FindingView, sev: Severity)
    ensures
        count_severity(s.push(f), sev) == count_severity(s, sev) + if f.2 == sev {
            1nat
        } else {
            0nat
        },
{
    assert(s.push(f).drop_last() == s);
}

/// The rules that block whatever else the findings hold: a critical
/// install-script finding, two critical source findings, or an obfuscation
/// score at or above the block threshold.
pub proof fn lemma_tier3_blocking_rules(script: Seq<FindingView>, source: Seq<FindingView>, obs: u8, block: u8)
    ensures
        count_severity(script, Severity::Critical) > 0 ==> outcome_rank(script, source, obs, block) == 2,
        count_severity(source, Severity::Critical) >= 2 ==> outcome_rank(script, source, obs, block) == 2,
        obs >= block ==> outcome_rank(script, source, obs, block) == 2,
        outcome_rank(script, source, obs, block) <= 2,
{
}

/// The rules that at least warn: one critical or any high source finding,
/// or an obfuscation score of 70 or more; with none of these and nothing
/// that blocks, the package passes.
pub proof fn lemma_tier3_warning_rules(script: Seq<FindingView>, source: Seq<FindingView>, obs: u8, block: u8)
    ensures
        count_severity(source, Severity::Critical) >= 1 ==> outcome_rank(script, source, obs, block) >= 1,
        count_severity(source, Severity::High) >= 1 ==> outcome_rank(script, source, obs, block) >= 1,
        obs >= 70 ==> outcome_rank(script, source, obs, block) >= 1,
        (count_severity(script, Severity::Critical) == 0 && count_severity(source, Severity::Critical)
            == 0 && count_severity(source, Severity::High) == 0 && obs < 70 && obs < block)
            ==> outcome_rank(script, source, obs, block) == 0,
{
}

/// Adding a source finding never softens the tier-3 result.
pub proof fn lemma_tier3_monotone_in_findings(
    script: Seq<FindingView>,
    source: Seq<FindingView>,
    f: FindingView,
    obs: u8,
    block: u8,
)
    ensures
        outcome_rank(script, source, obs, block) <= outcome_rank(script, source.push(f), obs, block),
{
    lemma_count_push(source, f, Severity::Critical);
    lemma_count_push(source, f, Severity::High);
}

/// A higher obfuscation score never softens the tier-3 result.
pub proof fn lemma_tier3_monotone_in_obfuscation(
    script: Seq<FindingView>,
    source: Seq<FindingView>,
    o1: u8,
    o2: u8,
    block: u8,
)
    requires
        o1 <= o2,
    ensures
        outcome_rank(script, source, o1, block) <= outcome_rank(script, source, o2, block),
{
}

/// The obfuscation score of a package is the highest score among its
/// non-empty files: no such file scores more, and it is one of their
/// scores (0 where there is none).
pub proof fn lemma_package_obfuscation_is_max(files: Seq<SourceFile>)
    ensures
        forall|i: int|
            0 <= i < files.len() && files[i].content@.len() > 0 ==> spec_obfuscation_score(
                #[trigger] files[i].content@,
            ) <= max_obfuscation(files),
        max_obfuscation(files) == 0 || exists|i: int|
            0 <= i < files.len() && files[i].content@.len() > 0 && max_obfuscation(files)
                == spec_obfuscation_score(#[trigger] files[i].content@),
    decreases files.len(),
{
    if files.len() > 0 {
        let d = files.drop_last();
        lemma_package_obfuscation_is_max(d);
        assert forall|i: int|
            0 <= i < files.len() && files[i].content@.len() > 0 implies spec_obfuscation_score(
            #[trigger] files[i].content@,
        ) <= max_obfuscation(files) by {
            if i < files.len() - 1 {
                assert(files[i] == d[i]);
            }
        }
        if max_obfuscation(files) != 0 {
            let here = if files.last().content@.len() > 0 {
                spec_obfuscation_score(files.last().content@)
            } else {
                0
            };
            if here > max_obfuscation(d) {
                assert(files[files.len() - 1] == files.last());
            } else {
                let i = choose|i: int|
                    0 <= i < d.len() && d[i].content@.len() > 0 && max_obfuscation(d)
                        == spec_obfuscation_score(#[trigger] d[i].content@);
                assert(files[i] == d[i]);
            }
        }
    }
}

/// The number of findings at line `k`.
pub open spec fn findings_at_line(s: Seq<FindingView>, k: nat) -> nat
    decreases s.len(),
{
    if s.len() == 0 {
        0
    } else {
        findings_at_line(s.drop_last(), k) + if s.last().1 == k {
            1nat
        } else {
            0nat
        }
    }
}

/// The number of patterns among `pats` whose regex matches `text`.
pub open spec fn matching_patterns(pats: Seq<(Seq<char>, Seq<char>)>, text: Seq<char>) -> nat
    decreases pats.len(),
{
    if pats.len() == 0 {
        0
    } else {
        matching_patterns(pats.drop_last(), text) + if regex_match(pats.last().0, text) {
            1nat
        } else {
            0nat
        }
    }
}

proof fn lemma_findings_at_line_concat(a: Seq<FindingView>, b: Seq<FindingView>, k: nat)
    ensures
        findings_at_line(a + b, k) == findings_at_line(a, k) + findings_at_line(b, k),
    decreases b.len(),
{
    if b.len() > 0 {
        lemma_findings_at_line_concat(a, b.drop_last(), k);
        assert((a + b).drop_last() == a + b.drop_last());
    } else {
        assert(a + b == a);
    }
}

proof fn lemma_hits_at_line(
    pats: Seq<(Seq<char>, Seq<char>)>,
    text: Seq<char>,
    file: Seq<char>,
    line: nat,
    sev: Severity,
    k: nat,
)
    ensures
        findings_at_line(hits(pats, text, file, line, sev), k) == if k == line {
            matching_patterns(pats, text)
        } else {
            0
        },
    decreases pats.len(),
{
    if pats.len() > 0 {
        lemma_hits_at_line(pats.drop_last(), text, file, line, sev, k);
        let extra: Seq<FindingView> = if regex_match(pats.last().0, text) {
            seq![(file, line, sev, pats.last().1)]
        } else {
            Seq::empty()
        };
        assert(hits(pats, text, file, line, sev) == hits(pats.drop_last(), text, file, line, sev) + extra);
        lemma_findings_at_line_concat(hits(pats.drop_last(), text, file, line, sev), extra, k);
        if regex_match(pats.last().0, text) {
            assert(extra.drop_last() =~= Seq::<FindingView>::empty());
            assert(extra.last().1 == line);
            assert(findings_at_line(Seq::<FindingView>::empty(), k) == 0);
            assert(findings_at_line(extra.drop_last(), k) == 0);
            assert(findings_at_line(extra, k) == if line == k { 1nat } else { 0nat });
        } else {
            assert(findings_at_line(extra, k) == 0);
        }
    }
}

/// Each critical pattern that matches a line gives a finding of its own at
/// that line: the findings at line `k` (1-based) are as many as the
/// critical patterns that match line `k`, and there are none at lines past
/// the last.
pub proof fn lemma_critical_findings_per_line(ls: Seq<Seq<char>>, file: Seq<char>, k: nat)
    requires
        k >= 1,
    ensures
        findings_at_line(critical_line_hits(ls, file), k) == if k <= ls.len() {
            matching_patterns(critical_patterns(), ls[k - 1])
        } else {
            0
        },
    decreases ls.len(),
{
    if ls.len() > 0 {
        let d = ls.drop_last();
        lemma_critical_findings_per_line(d, file, k);
        lemma_findings_at_line_concat(
            critical_line_hits(d, file),
            hits(critical_patterns(), ls.last(), file, ls.len(), Severity::Critical),
            k,
        );
        lemma_hits_at_line(critical_patterns(), ls.last(), file, ls.len(), Severity::Critical, k);
        if k < ls.len() {
            assert(ls[k - 1] == d[k - 1]);
        }
    }
}

/// In a scanned file, the findings at line `k` (1-based) are as many as the
/// critical patterns that match line `k` of its content.
pub proof fn lemma_file_findings_per_line(f: SourceFile, k: nat)
    requires
        1 <= k <= lines(f.content@).len(),
    ensures
        findings_at_line(file_findings(f), k) == matching_patterns(
            critical_patterns(),
            lines(f.content@)[k - 1],
        ),
{
    let ls = lines(f.content@);
    lemma_critical_findings_per_line(ls, f.path@, k);
    let combo: Seq<FindingView> = if any_line_matches(env_patterns(), ls) && any_line_matches(
        fetch_patterns(),
        ls,
    ) {
        seq![(f.path@, 0nat, Severity::Critical, combo_label())]
    } else {
        Seq::empty()
    };
    assert(file_findings(f) == critical_line_hits(ls, f.path@) + combo);
    lemma_findings_at_line_concat(critical_line_hits(ls, f.path@), combo, k);
    if combo.len() > 0 {
        assert(combo.drop_last() =~= Seq::<FindingView>::empty());
        assert(combo.last().1 == 0);
        assert(findings_at_line(Seq::<FindingView>::empty(), k) == 0);
        assert(findings_at_line(combo.drop_last(), k) == 0);
    }
    assert(findings_at_line(combo, k) == 0);
}

} // verus!
