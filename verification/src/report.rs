//! What the reports say about scan results: verdict counts, SARIF results,
//! and the text of the terminal report.

use vstd::prelude::*;
use crate::text::{decimal, join, join_chars, push_chars, push_decimal, push_str, string_from_chars};
use crate::types::{Ecosystem, PackageResult, TierResult, Verdict};

verus! {

broadcast use vstd::string::group_string_axioms;

// ── Counts ──────────────────────────────────────────────────────────────────

/// The number of results with verdict `v`.
pub open spec fn count_verdict(s: Seq<PackageResult>, v: Verdict) -> nat
    decreases s.len(),
{
    if s.len() == 0 {
        0
    } else {
        count_verdict(s.drop_last(), v) + if s.last().verdict == v {
            1nat
        } else {
            0nat
        }
    }
}

/// How many results there are, and how many were blocked, warned about and
/// passed.
#[derive(Debug, Clone, Copy, PartialEq, Eq)]
pub struct ReportCounts {
    pub total: usize,
    pub blocked: usize,
    pub warned: usize,
    pub passed: usize,
}

/// The counts that the JSON report and the CI summary give.
pub fn report_counts(results: &[PackageResult]) -> (r: ReportCounts)
    ensures
        r.total == results@.len(),
        r.blocked == count_verdict(results@, Verdict::Block),
        r.warned == count_verdict(results@, Verdict::Warn),
        r.passed == count_verdict(results@, Verdict::Pass),
        r.blocked + r.warned + r.passed == r.total,
{
    let n = results.len();
    let mut blocked: usize = 0;
    let mut warned: usize = 0;
    let mut passed: usize = 0;
    for i in 0..n
        invariant
            n == results@.len(),
            blocked == count_verdict(results@.take(i as int), Verdict::Block),
            warned == count_verdict(results@.take(i as int), Verdict::Warn),
            passed == count_verdict(results@.take(i as int), Verdict::Pass),
            blocked + warned + passed == i,
    {
        proof {
            assert(results@.take(i + 1).drop_last() == results@.take(i as int));
        }
        match results[i].verdict {
            Verdict::Block => blocked += 1,
            Verdict::Warn => warned += 1,
            Verdict::Pass => passed += 1,
        }
    }
    proof {
        assert(results@.take(n as int) == results@);
    }
    ReportCounts { total: n, blocked, warned, passed }
}

/// Every result is counted exactly once.
pub proof fn lemma_counts_partition(s: Seq<PackageResult>)
    ensures
        count_verdict(s, Verdict::Block) + count_verdict(s, Verdict::Warn) + count_verdict(
            s,
            Verdict::Pass,
        ) == s.len(),
    decreases s.len(),
{
    if s.len() > 0 {
        lemma_counts_partition(s.drop_last());
    }
}

/// Whether some result is blocked (the push is then rejected).
pub fn any_blocked(results: &[PackageResult]) -> (r: bool)
    ensures
        r <==> exists|i: int| 0 <= i < results@.len() && results@[i].verdict == Verdict::Block,
{
    let n = results.len();
    for i in 0..n
        invariant
            n == results@.len(),
            forall|j: int| 0 <= j < i ==> results@[j].verdict != Verdict::Block,
    {
        if results[i].verdict == Verdict::Block {
            return true;
        }
    }
    false
}

// ── SARIF ───────────────────────────────────────────────────────────────────

/// A SARIF rule: id, name and short description.
#[derive(Debug, Clone, Copy)]
pub struct SarifRule {
    pub id: &'static str,
    pub name: &'static str,
    pub description: &'static str,
}

/// The three rules: known vulnerability, suspicious metadata, malicious code.
pub open spec fn spec_rules() -> Seq<(Seq<char>, Seq<char>, Seq<char>)> {
    seq![
        ("GARD001"@, "KnownVulnerability"@, "Package has known CVE vulnerabilities (OSV database)"@),
        ("GARD002"@, "SuspiciousMetadata"@, "Package has suspicious metadata (very new or low downloads)"@),
        ("GARD003"@, "MaliciousCode"@, "Package contains malicious code patterns"@),
    ]
}

/// The SARIF rules that gard reports under.
pub fn make_rules() -> (r: Vec<SarifRule>)
    ensures
        r@.map_values(|x: SarifRule| (x.id@, x.name@, x.description@)) == spec_rules(),
{
    let r = vec![
        SarifRule { id: "GARD001", name: "KnownVulnerability", description: "Package has known CVE vulnerabilities (OSV database)" },
        SarifRule { id: "GARD002", name: "SuspiciousMetadata", description: "Package has suspicious metadata (very new or low downloads)" },
        SarifRule { id: "GARD003", name: "MaliciousCode", description: "Package contains malicious code patterns" },
    ];
    assert(r@.map_values(|x: SarifRule| (x.id@, x.name@, x.description@)) =~= spec_rules());
    r
}

/// One SARIF result: rule, level, message and the lockfile it points at.
#[derive(Debug)]
pub struct SarifFinding {
    pub rule_id: &'static str,
    pub level: &'static str,
    pub message: String,
    pub uri: &'static str,
}

/// The reason of a warning or block, if the tier result is one.
pub open spec fn flag_reason(t: TierResult) -> Option<Seq<char>> {
    match t {
        TierResult::Block { reason } => Some(reason@),
        TierResult::Warn { reason } => Some(reason@),
        _ => None,
    }
}

/// The rule and message for a result: the first of tier 3, tier 2, tier 1
/// that warned or blocked, with its reason; else rule `GARD002` with the
/// tier-2 score.
pub open spec fn spec_pick_rule(r: PackageResult) -> (Seq<char>, Seq<char>) {
    let p = r.package.spec_display();
    match flag_reason(r.tier3) {
        Some(reason) => ("GARD003"@, p + " — "@ + reason),
        None => match flag_reason(r.tier2) {
            Some(reason) => ("GARD002"@, p + " — "@ + reason),
            None => match flag_reason(r.tier1) {
                Some(reason) => ("GARD001"@, p + " — "@ + reason),
                None => ("GARD002"@, p + " — score "@ + decimal(r.tier2_score as nat)),
            },
        },
    }
}

fn flag_reason_exec(t: &TierResult) -> (r: Option<&String>)
    ensures
        match r {
            Some(s) => flag_reason(*t) == Some(s@),
            None => flag_reason(*t) is None,
        },
{
    match t {
        TierResult::Block { reason } => Some(reason),
        TierResult::Warn { reason } => Some(reason),
        _ => None,
    }
}

/// The rule and message for a result.
pub fn pick_rule(r: &PackageResult) -> (out: (&'static str, String))
    ensures
        out.0@ == spec_pick_rule(*r).0,
        out.1@ == spec_pick_rule(*r).1,
{
    let p = r.package.display_string();
    let mut msg: Vec<char> = Vec::new();
    push_str(&mut msg, p.as_str());
    push_str(&mut msg, " — ");
    proof {
        assert(Seq::<char>::empty() + p@ == p@);
    }
    if let Some(reason) = flag_reason_exec(&r.tier3) {
        push_str(&mut msg, reason.as_str());
        return ("GARD003", string_from_chars(&msg));
    }
    if let Some(reason) = flag_reason_exec(&r.tier2) {
        push_str(&mut msg, reason.as_str());
        return ("GARD002", string_from_chars(&msg));
    }
    if let Some(reason) = flag_reason_exec(&r.tier1) {
        push_str(&mut msg, reason.as_str());
        return ("GARD001", string_from_chars(&msg));
    }
    push_str(&mut msg, "score ");
    push_decimal(&mut msg, r.tier2_score as u64);
    proof {
        assert(p@ + " — "@ + "score "@ + decimal(r.tier2_score as nat) == p@ + " — score "@
            + decimal(r.tier2_score as nat)) by {
            reveal_strlit(" — ");
            reveal_strlit("score ");
            reveal_strlit(" — score ");
        }
    }
    ("GARD002", string_from_chars(&msg))
}

/// The SARIF level of a verdict.
pub open spec fn spec_level(v: Verdict) -> Seq<char> {
    match v {
        Verdict::Block => "error"@,
        Verdict::Warn => "warning"@,
        Verdict::Pass => "note"@,
    }
}

/// The lockfile that lists packages of an ecosystem.
pub open spec fn spec_lockfile(eco: Ecosystem) -> Seq<char> {
    match eco {
        Ecosystem::Npm => "package.json"@,
        Ecosystem::PyPI => "requirements.txt"@,
        Ecosystem::Cargo => "Cargo.toml"@,
    }
}

/// The lockfile that lists packages of an ecosystem.
pub fn lockfile_name(eco: &Ecosystem) -> (r: &'static str)
    ensures
        r@ == spec_lockfile(*eco),
{
    match eco {
        Ecosystem::Npm => "package.json",
        Ecosystem::PyPI => "requirements.txt",
        Ecosystem::Cargo => "Cargo.toml",
    }
}

/// Whether `f` is the SARIF result for `r`.
pub open spec fn is_sarif_of(f: SarifFinding, r: PackageResult) -> bool {
    &&& f.rule_id@ == spec_pick_rule(r).0
    &&& f.message@ == spec_pick_rule(r).1
    &&& f.level@ == spec_level(r.verdict)
    &&& f.uri@ == spec_lockfile(r.package.ecosystem)
}

/// The SARIF result for one scan result.
pub fn to_sarif_result(r: &PackageResult) -> (f: SarifFinding)
    ensures
        is_sarif_of(f, *r),
{
    let (rule_id, message) = pick_rule(r);
    let level = match r.verdict {
        Verdict::Block => "error",
        Verdict::Warn => "warning",
        Verdict::Pass => "note",
    };
    SarifFinding { rule_id, level, message, uri: lockfile_name(&r.package.ecosystem) }
}

/// The results that the SARIF report lists: those not passed, in order.
pub open spec fn sarif_subjects(s: Seq<PackageResult>) -> Seq<PackageResult>
    decreases s.len(),
{
    if s.len() == 0 {
        Seq::empty()
    } else if s.last().verdict != Verdict::Pass {
        sarif_subjects(s.drop_last()).push(s.last())
    } else {
        sarif_subjects(s.drop_last())
    }
}

/// The SARIF results of a scan: one for each result not passed, in order.
pub fn sarif_results(results: &[PackageResult]) -> (r: Vec<SarifFinding>)
    ensures
        r@.len() == sarif_subjects(results@).len(),
        forall|i: int| 0 <= i < r@.len() ==> is_sarif_of(#[trigger] r@[i], sarif_subjects(results@)[i]),
{
    let mut r: Vec<SarifFinding> = Vec::new();
    let n = results.len();
    for i in 0..n
        invariant
            n == results@.len(),
            r@.len() == sarif_subjects(results@.take(i as int)).len(),
            forall|k: int|
                0 <= k < r@.len() ==> is_sarif_of(
                    #[trigger] r@[k],
                    sarif_subjects(results@.take(i as int))[k],
                ),
    {
        proof {
            assert(results@.take(i + 1).drop_last() == results@.take(i as int));
        }
        if results[i].verdict != Verdict::Pass {
            let f = to_sarif_result(&results[i]);
            r.push(f);
        }
    }
    proof {
        assert(results@.take(n as int) == results@);
    }
    r
}

// ── Terminal ────────────────────────────────────────────────────────────────

/// Where the report is shown.
#[derive(Debug, Clone, Copy, PartialEq, Eq, Structural)]
pub enum RuntimeContext {
    Standard,
    ClaudeCode,
    Cursor,
    GitHubActions,
}

/// The runtime context that the environment names: Anthropic's coding
/// assistant where `CLAUDE_CODE` or `ANTHROPIC_CLAUDE_CODE` is set, else Cursor where
/// `CURSOR_TRACE_ID` is, else GitHub Actions where `GITHUB_ACTIONS` is.
pub fn runtime_context_from(
    claude_code: bool,
    anthropic_claude_code: bool,
    cursor_trace_id: bool,
    github_actions: bool,
) -> (r: RuntimeContext)
    ensures
        r == (if claude_code || anthropic_claude_code {
            RuntimeContext::ClaudeCode
        } else if cursor_trace_id {
            RuntimeContext::Cursor
        } else if github_actions {
            RuntimeContext::GitHubActions
        } else {
            RuntimeContext::Standard
        }),
{
    if claude_code || anthropic_claude_code {
        return RuntimeContext::ClaudeCode;
    }
    if cursor_trace_id {
        return RuntimeContext::Cursor;
    }
    if github_actions {
        return RuntimeContext::GitHubActions;
    }
    RuntimeContext::Standard
}

/// The short lower-case label of a tier outcome in the terminal report.
pub open spec fn spec_short_label(t: TierResult) -> Seq<char> {
    match t {
        TierResult::Pass => "pass"@,
        TierResult::Warn { .. } => "warn"@,
        TierResult::Block { .. } => "BLOCK"@,
        TierResult::Error { .. } => "error"@,
        TierResult::Skipped => "skip"@,
    }
}

/// The short label of a tier outcome in the terminal report.
pub fn tier_label(t: &TierResult) -> (r: &'static str)
    ensures
        r@ == spec_short_label(*t),
{
    match t {
        TierResult::Pass => "pass",
        TierResult::Warn { .. } => "warn",
        TierResult::Block { .. } => "BLOCK",
        TierResult::Error { .. } => "error",
        TierResult::Skipped => "skip",
    }
}

/// Why a result was blocked: the reason of the first blocking tier among
/// tier 3, tier 2, tier 1, else `"unknown reason"`.
pub open spec fn spec_block_reason(r: PackageResult) -> Seq<char> {
    match r.tier3 {
        TierResult::Block { reason } => reason@,
        _ => match r.tier2 {
            TierResult::Block { reason } => reason@,
            _ => match r.tier1 {
                TierResult::Block { reason } => reason@,
                _ => "unknown reason"@,
            },
        },
    }
}

/// Why a result was blocked.
pub fn block_reason(r: &PackageResult) -> (s: String)
    ensures
        s@ == spec_block_reason(*r),
{
    if let TierResult::Block { reason } = &r.tier3 {
        return reason.clone();
    }
    if let TierResult::Block { reason } = &r.tier2 {
        return reason.clone();
    }
    if let TierResult::Block { reason } = &r.tier1 {
        return reason.clone();
    }
    "unknown reason".to_owned()
}

/// The tier-1 part of the terminal summary.
pub open spec fn t1_part(t: TierResult) -> Seq<char> {
    match t {
        TierResult::Pass => "T1 pass"@,
        TierResult::Block { .. } => "T1 BLOCK"@,
        TierResult::Warn { .. } => "T1 warn"@,
        TierResult::Error { .. } => "T1 error"@,
        TierResult::Skipped => "T1 skip"@,
    }
}

/// The tier-2 part: the flag at a score of 60 or more (the packages that go
/// on to the source analysis), else the label,
/// with the score; absent where tier 2 was skipped.
pub open spec fn t2_part(r: PackageResult) -> Seq<Seq<char>> {
    if r.tier2 is Skipped {
        Seq::empty()
    } else if r.tier2_score >= 60 {
        seq!["T2 flag (score "@ + decimal(r.tier2_score as nat) + ")"@]
    } else {
        seq!["T2 "@ + spec_short_label(r.tier2) + " (score "@ + decimal(r.tier2_score as nat) + ")"@]
    }
}

/// The download part: millions or thousands of weekly downloads, or the
/// plain count; absent where unknown.
pub open spec fn downloads_part(d: Option<u64>) -> Seq<Seq<char>> {
    match d {
        None => Seq::empty(),
        Some(dl) => if dl >= 1_000_000 {
            seq![decimal((dl / 1_000_000) as nat) + "M weekly"@]
        } else if dl >= 1_000 {
            seq![decimal((dl / 1_000) as nat) + "K weekly"@]
        } else {
            seq![decimal(dl as nat) + " downloads"@]
        },
    }
}

/// The one-line tier summary of a result, its parts joined by `" · "`.
pub open spec fn spec_tier_info(r: PackageResult) -> Seq<char> {
    join(seq![t1_part(r.tier1)] + t2_part(r) + downloads_part(r.tier2_downloads), " · "@)
}

/// The one-line tier summary of a result.
pub fn format_tier_info(r: &PackageResult) -> (s: String)
    ensures
        s@ == spec_tier_info(*r),
{
    let mut parts: Vec<Vec<char>> = Vec::new();
    let mut t1: Vec<char> = Vec::new();
    let t1_text = match &r.tier1 {
        TierResult::Pass => "T1 pass",
        TierResult::Block { .. } => "T1 BLOCK",
        TierResult::Warn { .. } => "T1 warn",
        TierResult::Error { .. } => "T1 error",
        TierResult::Skipped => "T1 skip",
    };
    push_str(&mut t1, t1_text);
    proof {
        assert(t1.deep_view() =~= t1@);
    }
    parts.push(t1);
    let ghost p1 = parts.deep_view();
    proof {
        assert(p1 =~= seq![t1_part(r.tier1)]);
    }
    let skipped = match &r.tier2 {
        TierResult::Skipped => true,
        _ => false,
    };
    if !skipped {
        let mut t2: Vec<char> = Vec::new();
        if r.tier2_score >= 60 {
            push_str(&mut t2, "T2 flag (score ");
            push_decimal(&mut t2, r.tier2_score as u64);
            push_str(&mut t2, ")");
        } else {
            push_str(&mut t2, "T2 ");
            push_str(&mut t2, tier_label(&r.tier2));
            push_str(&mut t2, " (score ");
            push_decimal(&mut t2, r.tier2_score as u64);
            push_str(&mut t2, ")");
        }
        proof {
            assert(t2.deep_view() =~= t2@);
            assert(Seq::<char>::empty() + "T2 flag (score "@ == "T2 flag (score "@);
            assert(Seq::<char>::empty() + "T2 "@ == "T2 "@);
        }
        parts.push(t2);
    }
    let ghost p2 = parts.deep_view();
    proof {
        assert(p2 =~= p1 + t2_part(*r));
    }
    match r.tier2_downloads {
        Some(dl) => {
            let mut d: Vec<char> = Vec::new();
            if dl >= 1_000_000 {
                push_decimal(&mut d, dl / 1_000_000);
                push_str(&mut d, "M weekly");
            } else if dl >= 1_000 {
                push_decimal(&mut d, dl / 1_000);
                push_str(&mut d, "K weekly");
            } else {
                push_decimal(&mut d, dl);
                push_str(&mut d, " downloads");
            }
            proof {
                assert(d.deep_view() =~= d@);
                assert(Seq::<char>::empty() + decimal((dl / 1_000_000) as nat) == decimal((dl / 1_000_000) as nat));
                assert(Seq::<char>::empty() + decimal((dl / 1_000) as nat) == decimal((dl / 1_000) as nat));
                assert(Seq::<char>::empty() + decimal(dl as nat) == decimal(dl as nat));
            }
            parts.push(d);
        },
        None => {},
    }
    proof {
        assert(parts.deep_view() =~= p2 + downloads_part(r.tier2_downloads));
    }
    let out = join_chars(&parts, " · ");
    string_from_chars(&out)
}

} // verus!
