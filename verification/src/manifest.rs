//! The manifest under `.gard/`: the record of checked packages.

use vstd::prelude::*;
use crate::types::{Ecosystem, PackageResult, TierResult, Verdict};

verus! {

broadcast use vstd::string::group_string_axioms;

/// The record of every package checked in a repository.
#[derive(Debug)]
pub struct Manifest {
    pub version: String,
    pub schema: String,
    pub repo: Option<String>,
    pub packages: Vec<ManifestEntry>,
}

/// One checked package with the outcome of each tier.
#[derive(Debug)]
pub struct ManifestEntry {
    pub name: String,
    pub version: String,
    pub ecosystem: Ecosystem,
    pub checked_at: String,
    pub tier1: TierSummary,
    pub tier2: Tier2Summary,
    pub tier3: TierSummary,
    pub final_verdict: String,
    pub ai_tool: Option<String>,
    pub added_by: Option<String>,
}

/// The label of a tier outcome and its reason, if it has one.
#[derive(Debug)]
pub struct TierSummary {
    pub result: String,
    pub reason: Option<String>,
}

/// The label of the metadata tier with its score and the data it used.
#[derive(Debug)]
pub struct Tier2Summary {
    pub result: String,
    pub score: u8,
    pub age_days: Option<u64>,
    pub weekly_downloads: Option<u64>,
}

/// The upper-case label of a tier outcome.
pub open spec fn spec_tier_label(t: TierResult) -> Seq<char> {
    match t {
        TierResult::Pass => "PASS"@,
        TierResult::Skipped => "SKIPPED"@,
        TierResult::Warn { .. } => "WARN"@,
        TierResult::Block { .. } => "BLOCK"@,
        TierResult::Error { .. } => "ERROR"@,
    }
}

/// The reason (or error message) that a tier outcome carries.
pub open spec fn spec_tier_reason(t: TierResult) -> Option<String> {
    match t {
        TierResult::Warn { reason } => Some(reason),
        TierResult::Block { reason } => Some(reason),
        TierResult::Error { message } => Some(message),
        _ => None,
    }
}

/// Whether `s` summarizes `t`.
pub open spec fn summarizes(s: TierSummary, t: TierResult) -> bool {
    s.result@ == spec_tier_label(t) && s.reason == spec_tier_reason(t)
}

/// Whether `e` records the scan result `r`, added by `added_by`.
pub open spec fn records(e: ManifestEntry, r: PackageResult, added_by: Option<String>) -> bool {
    &&& e.name == r.package.name
    &&& e.version == r.package.version
    &&& e.ecosystem == r.package.ecosystem
    &&& e.checked_at@ == r.checked_at.spec_text()
    &&& summarizes(e.tier1, r.tier1)
    &&& e.tier2.result@ == spec_tier_label(r.tier2)
    &&& e.tier2.score == r.tier2_score
    &&& e.tier2.age_days == r.tier2_age_days
    &&& e.tier2.weekly_downloads == r.tier2_downloads
    &&& summarizes(e.tier3, r.tier3)
    &&& e.final_verdict@ == r.verdict.spec_label()
    &&& e.ai_tool == r.ai_tool
    &&& e.added_by == added_by
}

/// Whether `new` is `old` with the scan result `r` recorded: the first
/// entry for the same name and ecosystem replaced, or, where there is none,
/// an entry appended.
pub open spec fn upserted(
    old: Seq<ManifestEntry>,
    new: Seq<ManifestEntry>,
    r: PackageResult,
    added_by: Option<String>,
) -> bool {
    match entry_index(old, r.package.name@, r.package.ecosystem) {
        Some(i) => {
            &&& new.len() == old.len()
            &&& records(new[i], r, added_by)
            &&& forall|j: int| 0 <= j < old.len() && j != i ==> new[j] == old[j]
        },
        None => {
            &&& new.len() == old.len() + 1
            &&& new.take(old.len() as int) == old
            &&& records(new.last(), r, added_by)
        },
    }
}

/// Whether no two entries are for the same name and ecosystem.
pub open spec fn unique_entries(s: Seq<ManifestEntry>) -> bool {
    forall|i: int, j: int|
        0 <= i < j < s.len() ==> !(s[i].name@ == s[j].name@ && s[i].ecosystem == s[j].ecosystem)
}

/// The first index at or after `i` of an entry for `name` in `eco`.
pub open spec fn entry_index_from(
    s: Seq<ManifestEntry>,
    name: Seq<char>,
    eco: Ecosystem,
    i: int,
) -> Option<int>
    decreases s.len() - i,
{
    if i < 0 || i >= s.len() {
        None
    } else if s[i].name@ == name && s[i].ecosystem == eco {
        Some(i)
    } else {
        entry_index_from(s, name, eco, i + 1)
    }
}

/// The index of the first entry for `name` in `eco`.
pub open spec fn entry_index(s: Seq<ManifestEntry>, name: Seq<char>, eco: Ecosystem) -> Option<int> {
    entry_index_from(s, name, eco, 0)
}

fn clone_opt(o: &Option<String>) -> (r: Option<String>)
    ensures
        r == *o,
{
    match o {
        Some(s) => Some(s.clone()),
        None => None,
    }
}

/// The upper-case label of a tier outcome.
pub fn tier_label(t: &TierResult) -> (r: String)
    ensures
        r@ == spec_tier_label(*t),
{
    match t {
        TierResult::Pass => "PASS".to_owned(),
        TierResult::Skipped => "SKIPPED".to_owned(),
        TierResult::Warn { .. } => "WARN".to_owned(),
        TierResult::Block { .. } => "BLOCK".to_owned(),
        TierResult::Error { .. } => "ERROR".to_owned(),
    }
}

impl TierSummary {
    /// The label and reason of a tier outcome.
    pub fn from_tier(t: &TierResult) -> (r: TierSummary)
        ensures
            summarizes(r, *t),
    {
        let result = tier_label(t);
        let reason = match t {
            TierResult::Warn { reason } => Some(reason.clone()),
            TierResult::Block { reason } => Some(reason.clone()),
            TierResult::Error { message } => Some(message.clone()),
            _ => None,
        };
        TierSummary { result, reason }
    }
}

impl ManifestEntry {
    /// The manifest entry for a scan result.
    pub fn from_result(r: &PackageResult, added_by: Option<String>) -> (e: ManifestEntry)
        ensures
            records(e, *r, added_by),
    {
        ManifestEntry {
            name: r.package.name.clone(),
            version: r.package.version.clone(),
            ecosystem: r.package.ecosystem,
            checked_at: r.checked_at.to_rfc3339(),
            tier1: TierSummary::from_tier(&r.tier1),
            tier2: Tier2Summary {
                result: tier_label(&r.tier2),
                score: r.tier2_score,
                age_days: r.tier2_age_days,
                weekly_downloads: r.tier2_downloads,
            },
            tier3: TierSummary::from_tier(&r.tier3),
            final_verdict: r.verdict.label().to_owned(),
            ai_tool: clone_opt(&r.ai_tool),
            added_by,
        }
    }
}

impl Manifest {
    /// An empty manifest of schema version 1.
    pub fn new(repo: Option<String>) -> (m: Manifest)
        ensures
            m.version@ == "1"@,
            m.schema@ == "https://gard.dev/schema/v1"@,
            m.repo == repo,
            m.packages@.len() == 0,
    {
        Manifest {
            version: "1".to_owned(),
            schema: "https://gard.dev/schema/v1".to_owned(),
            repo,
            packages: Vec::new(),
        }
    }

    /// Records a scan result: the first entry for the same name and
    /// ecosystem is replaced, or the entry is appended where there is none.
    pub fn upsert(&mut self, result: &PackageResult, added_by: Option<String>)
        ensures
            final(self).version == old(self).version,
            final(self).schema == old(self).schema,
            final(self).repo == old(self).repo,
            upserted(old(self).packages@, final(self).packages@, *result, added_by),
            // what a later lookup finds is the recorded result
            entry_index(final(self).packages@, result.package.name@, result.package.ecosystem)
                matches Some(k) && records(final(self).packages@[k], *result, added_by),
    {
        let entry = ManifestEntry::from_result(result, added_by);
        let n = self.packages.len();
        let i = match self.position(&result.package.name, result.package.ecosystem) {
            Some(p) => p,
            None => n,
        };
        let ghost old_packages = self.packages@;
        if i < n {
            self.packages.set(i, entry);
            proof {
                lemma_entry_index_same_prefix(
                    old_packages,
                    self.packages@,
                    result.package.name@,
                    result.package.ecosystem,
                    i as int,
                );
            }
        } else {
            self.packages.push(entry);
            proof {
                assert(self.packages@.take(n as int) == old_packages);
                lemma_entry_index_same_prefix(
                    old_packages,
                    self.packages@,
                    result.package.name@,
                    result.package.ecosystem,
                    n as int,
                );
            }
        }
    }

    /// The index of the first entry for `name` in `eco`.
    fn position(&self, name: &String, eco: Ecosystem) -> (r: Option<usize>)
        ensures
            r matches Some(i) ==> i < self.packages@.len() && entry_index(self.packages@, name@, eco)
                == Some(i as int) && entry_index_from(self.packages@, name@, eco, i as int) == Some(
                i as int,
            ),
            r is None ==> entry_index(self.packages@, name@, eco) is None
                && entry_index_from(self.packages@, name@, eco, self.packages@.len() as int) is None,
    {
        let n = self.packages.len();
        for i in 0..n
            invariant
                n == self.packages.len(),
                entry_index(self.packages@, name@, eco) == entry_index_from(
                    self.packages@,
                    name@,
                    eco,
                    i as int,
                ),
        {
            if self.packages[i].name == *name && self.packages[i].ecosystem == eco {
                return Some(i);
            }
        }
        None
    }

    /// The index of the first entry named `name`.
    pub fn find_by_name(&self, name: &str) -> (r: Option<usize>)
        ensures
            r matches Some(i) ==> i < self.packages@.len() && self.packages@[i as int].name@
                == name@ && forall|j: int| 0 <= j < i ==> self.packages@[j].name@ != name@,
            r is None ==> forall|j: int|
                0 <= j < self.packages@.len() ==> self.packages@[j].name@ != name@,
    {
        let target = name.to_owned();
        let n = self.packages.len();
        for i in 0..n
            invariant
                n == self.packages.len(),
                target@ == name@,
                forall|j: int| 0 <= j < i ==> self.packages@[j].name@ != name@,
        {
            if self.packages[i].name == target {
                return Some(i);
            }
        }
        None
    }
}

/// Where the entries before `i` agree and none of them is for `name` in
/// `eco`, while entry `i` is (or `i` is the end of `b`), the first entry for
/// them in `b` is at `i`.
proof fn lemma_entry_index_same_prefix(
    a: Seq<ManifestEntry>,
    b: Seq<ManifestEntry>,
    name: Seq<char>,
    eco: Ecosystem,
    i: int,
)
    requires
        0 <= i < b.len(),
        i <= a.len(),
        forall|j: int| 0 <= j < i ==> b[j] == a[j],
        entry_index(a, name, eco) == entry_index_from(a, name, eco, i),
        b[i].name@ == name && b[i].ecosystem == eco,
    ensures
        entry_index(b, name, eco) == Some(i),
{
    lemma_entry_index_prefix_walk(a, b, name, eco, 0, i);
}

proof fn lemma_entry_index_prefix_walk(
    a: Seq<ManifestEntry>,
    b: Seq<ManifestEntry>,
    name: Seq<char>,
    eco: Ecosystem,
    k: int,
    i: int,
)
    requires
        0 <= k <= i < b.len(),
        i <= a.len(),
        forall|j: int| 0 <= j < i ==> b[j] == a[j],
        entry_index_from(a, name, eco, k) == entry_index_from(a, name, eco, i),
        b[i].name@ == name && b[i].ecosystem == eco,
    ensures
        entry_index_from(b, name, eco, k) == Some(i),
    decreases i - k,
{
    if k < i {
        if a[k].name@ == name && a[k].ecosystem == eco {
            lemma_entry_index_from_ge(a, name, eco, i);
            assert(false);
        }
        lemma_entry_index_prefix_walk(a, b, name, eco, k + 1, i);
    }
}

proof fn lemma_entry_index_from_ge(a: Seq<ManifestEntry>, name: Seq<char>, eco: Ecosystem, i: int)
    requires
        0 <= i,
    ensures
        entry_index_from(a, name, eco, i) matches Some(j) ==> j >= i,
    decreases a.len() - i,
{
    if i < a.len() {
        lemma_entry_index_from_ge(a, name, eco, i + 1);
    }
}

impl Manifest {
    /// How many entries have the final verdict `BLOCK`, `WARN` and `PASS`.
    pub fn verdict_counts(&self) -> (r: (usize, usize, usize))
        ensures
            r.0 == count_verdict(self.packages@, "BLOCK"@),
            r.1 == count_verdict(self.packages@, "WARN"@),
            r.2 == count_verdict(self.packages@, "PASS"@),
    {
        let n = self.packages.len();
        let mut blocked: usize = 0;
        let mut warned: usize = 0;
        let mut passed: usize = 0;
        let block_label = "BLOCK".to_owned();
        let warn_label = "WARN".to_owned();
        let pass_label = "PASS".to_owned();
        for i in 0..n
            invariant
                n == self.packages.len(),
                block_label@ == "BLOCK"@,
                warn_label@ == "WARN"@,
                pass_label@ == "PASS"@,
                blocked == count_verdict(self.packages@.take(i as int), "BLOCK"@),
                warned == count_verdict(self.packages@.take(i as int), "WARN"@),
                passed == count_verdict(self.packages@.take(i as int), "PASS"@),
                blocked <= i && warned <= i && passed <= i,
        {
            proof {
                assert(self.packages@.take(i + 1).drop_last() == self.packages@.take(i as int));
            }
            let v = &self.packages[i].final_verdict;
            if *v == block_label {
                blocked += 1;
            }
            if *v == warn_label {
                warned += 1;
            }
            if *v == pass_label {
                passed += 1;
            }
        }
        proof {
            assert(self.packages@.take(n as int) == self.packages@);
        }
        (blocked, warned, passed)
    }
}

/// The number of entries whose final verdict reads `label`.
pub open spec fn count_verdict(s: Seq<ManifestEntry>, label: Seq<char>) -> nat
    decreases s.len(),
{
    if s.len() == 0 {
        0
    } else {
        count_verdict(s.drop_last(), label) + if s.last().final_verdict@ == label {
            1nat
        } else {
            0nat
        }
    }
}

/// Recording a scan result keeps a manifest free of duplicates: at most one
/// entry per package name and ecosystem.
pub proof fn lemma_upsert_keeps_entries_unique(
    old: Seq<ManifestEntry>,
    new: Seq<ManifestEntry>,
    r: PackageResult,
    added_by: Option<String>,
)
    requires
        unique_entries(old),
        upserted(old, new, r, added_by),
    ensures
        unique_entries(new),
{
    let name = r.package.name@;
    let eco = r.package.ecosystem;
    match entry_index(old, name, eco) {
        Some(i) => {
            lemma_entry_index_found(old, name, eco, 0);
            assert forall|a: int, b: int|
                0 <= a < b < new.len() implies !(new[a].name@ == new[b].name@ && new[a].ecosystem
                == new[b].ecosystem) by {
                if a == i {
                    assert(new[b] == old[b]);
                } else if b == i {
                    assert(new[a] == old[a]);
                } else {
                    assert(new[a] == old[a] && new[b] == old[b]);
                }
            }
        },
        None => {
            lemma_entry_index_none(old, name, eco, 0);
            assert forall|a: int, b: int|
                0 <= a < b < new.len() implies !(new[a].name@ == new[b].name@ && new[a].ecosystem
                == new[b].ecosystem) by {
                assert(new[a] == new.take(old.len() as int)[a]);
                if b < old.len() {
                    assert(new[b] == new.take(old.len() as int)[b]);
                }
            }
        },
    }
}

proof fn lemma_entry_index_found(s: Seq<ManifestEntry>, name: Seq<char>, eco: Ecosystem, k: int)
    requires
        0 <= k,
    ensures
        entry_index_from(s, name, eco, k) matches Some(i) ==> k <= i < s.len() && s[i].name@ == name
            && s[i].ecosystem == eco,
    decreases s.len() - k,
{
    if k < s.len() {
        lemma_entry_index_found(s, name, eco, k + 1);
    }
}

proof fn lemma_entry_index_none(s: Seq<ManifestEntry>, name: Seq<char>, eco: Ecosystem, k: int)
    requires
        0 <= k,
        entry_index_from(s, name, eco, k) is None,
    ensures
        forall|j: int| k <= j < s.len() ==> !(s[j].name@ == name && s[j].ecosystem == eco),
    decreases s.len() - k,
{
    if k < s.len() {
        lemma_entry_index_none(s, name, eco, k + 1);
    }
}

} // verus!
