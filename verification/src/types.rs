//! Core value types: ecosystems, packages, per-tier results and verdicts.

use vstd::prelude::*;
use crate::text::{push_str, string_from_chars};

verus! {

/// A package ecosystem.
#[derive(Debug, Clone, Copy, PartialEq, Eq, Structural)]
pub enum Ecosystem {
    Npm,
    PyPI,
    Cargo,
}

impl Ecosystem {
    /// The ecosystem name that the OSV database uses.
    pub open spec fn spec_osv_name(self) -> Seq<char> {
        match self {
            Ecosystem::Npm => "npm"@,
            Ecosystem::PyPI => "PyPI"@,
            Ecosystem::Cargo => "crates.io"@,
        }
    }

    /// The ecosystem name shown to users.
    pub open spec fn spec_display_name(self) -> Seq<char> {
        match self {
            Ecosystem::Npm => "npm"@,
            Ecosystem::PyPI => "PyPI"@,
            Ecosystem::Cargo => "cargo"@,
        }
    }

    /// The ecosystem name that the OSV database uses.
    pub fn osv_name(&self) -> (r: &'static str)
        ensures
            r@ == self.spec_osv_name(),
    {
        match self {
            Ecosystem::Npm => "npm",
            Ecosystem::PyPI => "PyPI",
            Ecosystem::Cargo => "crates.io",
        }
    }

    /// The ecosystem name shown to users (what `Display` prints).
    pub fn display_name(&self) -> (r: &'static str)
        ensures
            r@ == self.spec_display_name(),
    {
        match self {
            Ecosystem::Npm => "npm",
            Ecosystem::PyPI => "PyPI",
            Ecosystem::Cargo => "cargo",
        }
    }
}

/// A package name and version in one ecosystem.
#[derive(Debug)]
pub struct Package {
    pub name: String,
    pub version: String,
    pub ecosystem: Ecosystem,
}

impl Clone for Package {
    fn clone(&self) -> (r: Self)
        ensures
            r == *self,
    {
        Package { name: self.name.clone(), version: self.version.clone(), ecosystem: self.ecosystem }
    }
}

impl Package {
    /// `name@version`, as the package is shown to users.
    pub open spec fn spec_display(self) -> Seq<char> {
        self.name@ + "@"@ + self.version@
    }

    pub fn new(name: &str, version: &str, ecosystem: Ecosystem) -> (r: Package)
        ensures
            r.name@ == name@,
            r.version@ == version@,
            r.ecosystem == ecosystem,
    {
        Package { name: name.to_owned(), version: version.to_owned(), ecosystem }
    }

    /// `name@version`.
    pub fn display_string(&self) -> (r: String)
        ensures
            r@ == self.spec_display(),
    {
        let mut out: Vec<char> = Vec::new();
        push_str(&mut out, self.name.as_str());
        push_str(&mut out, "@");
        push_str(&mut out, self.version.as_str());
        string_from_chars(&out)
    }
}

/// The outcome of one detection tier.
#[derive(Debug, PartialEq)]
pub enum TierResult {
    Pass,
    Warn { reason: String },
    Block { reason: String },
    Skipped,
    Error { message: String },
}

impl Clone for TierResult {
    fn clone(&self) -> (r: Self)
        ensures
            r == *self,
    {
        match self {
            TierResult::Pass => TierResult::Pass,
            TierResult::Warn { reason } => TierResult::Warn { reason: reason.clone() },
            TierResult::Block { reason } => TierResult::Block { reason: reason.clone() },
            TierResult::Skipped => TierResult::Skipped,
            TierResult::Error { message } => TierResult::Error { message: message.clone() },
        }
    }
}

impl TierResult {
    pub open spec fn spec_is_blocking(self) -> bool {
        self is Block
    }

    pub open spec fn spec_is_flagged(self) -> bool {
        self is Warn || self is Block
    }

    /// Whether the tier blocks the package.
    pub fn is_blocking(&self) -> (r: bool)
        ensures
            r == self.spec_is_blocking(),
    {
        match self {
            TierResult::Block { .. } => true,
            _ => false,
        }
    }

    /// Whether the tier warns about or blocks the package.
    pub fn is_flagged(&self) -> (r: bool)
        ensures
            r == self.spec_is_flagged(),
    {
        match self {
            TierResult::Warn { .. } | TierResult::Block { .. } => true,
            _ => false,
        }
    }
}

/// A blocking tier result is always a flagged one.
pub proof fn lemma_blocking_is_flagged(t: TierResult)
    ensures
        t.spec_is_blocking() ==> t.spec_is_flagged(),
{
}

/// The final verdict on a package.
#[derive(Debug, Clone, Copy, PartialEq, Eq, Structural)]
pub enum Verdict {
    Pass,
    Warn,
    Block,
}

impl Verdict {
    /// The upper-case label of the verdict (what `Display` prints).
    pub open spec fn spec_label(self) -> Seq<char> {
        match self {
            Verdict::Pass => "PASS"@,
            Verdict::Warn => "WARN"@,
            Verdict::Block => "BLOCK"@,
        }
    }

    /// Severity rank: `Pass < Warn < Block`.
    pub open spec fn rank(self) -> nat {
        match self {
            Verdict::Pass => 0,
            Verdict::Warn => 1,
            Verdict::Block => 2,
        }
    }

    /// The upper-case label of the verdict (what `Display` prints).
    pub fn label(&self) -> (r: &'static str)
        ensures
            r@ == self.spec_label(),
    {
        match self {
            Verdict::Pass => "PASS",
            Verdict::Warn => "WARN",
            Verdict::Block => "BLOCK",
        }
    }
}

/// The RFC 3339 text that chrono writes for the UTC instant `secs` seconds
/// and `nanos` nanoseconds after the Unix epoch, or `None` where chrono has
/// no such instant.
pub uninterp spec fn rfc3339_text(secs: i64, nanos: u32) -> Option<Seq<char>>;

/// Calls `chrono::DateTime::<Utc>::from_timestamp` and then
/// `DateTime::to_rfc3339`. Claimed: the result is `rfc3339_text` of the
/// arguments, `None` exactly where `from_timestamp` gives `None`.
#[verifier::external_body]
fn format_rfc3339(secs: i64, nanos: u32) -> (r: Option<String>)
    ensures
        r matches Some(t) ==> rfc3339_text(secs, nanos) == Some(t@),
        r is None ==> rfc3339_text(secs, nanos) is None,
{
    chrono::DateTime::from_timestamp(secs, nanos).map(|d| d.to_rfc3339())
}

/// A UTC instant, held as seconds and nanoseconds after the Unix epoch
/// together with its RFC 3339 text.
#[derive(Debug)]
pub struct Timestamp {
    secs: i64,
    nanos: u32,
    text: String,
}

impl Clone for Timestamp {
    fn clone(&self) -> (r: Self)
        ensures
            r == *self,
    {
        proof {
            use_type_invariant(self);
        }
        Timestamp { secs: self.secs, nanos: self.nanos, text: self.text.clone() }
    }
}

impl Timestamp {
    #[verifier::type_invariant]
    spec fn wf(self) -> bool {
        rfc3339_text(self.secs, self.nanos) == Some(self.text@)
    }

    pub closed spec fn spec_secs(self) -> i64 {
        self.secs
    }

    pub closed spec fn spec_nanos(self) -> u32 {
        self.nanos
    }

    pub closed spec fn spec_text(self) -> Seq<char> {
        self.text@
    }

    /// The instant `secs` seconds and `nanos` nanoseconds after the Unix
    /// epoch, or `None` where chrono cannot represent it.
    pub fn from_unix(secs: i64, nanos: u32) -> (r: Option<Timestamp>)
        ensures
            r is Some <==> rfc3339_text(secs, nanos) is Some,
            r matches Some(t) ==> t.spec_secs() == secs && t.spec_nanos() == nanos,
    {
        match format_rfc3339(secs, nanos) {
            Some(text) => Some(Timestamp { secs, nanos, text }),
            None => None,
        }
    }

    pub fn secs(&self) -> (r: i64)
        ensures
            r == self.spec_secs(),
    {
        self.secs
    }

    pub fn nanos(&self) -> (r: u32)
        ensures
            r == self.spec_nanos(),
    {
        self.nanos
    }

    /// The RFC 3339 text of the instant.
    pub fn to_rfc3339(&self) -> (r: String)
        ensures
            rfc3339_text(self.spec_secs(), self.spec_nanos()) == Some(r@),
            r@ == self.spec_text(),
    {
        proof {
            use_type_invariant(self);
        }
        self.text.clone()
    }
}

/// The full outcome of scanning one package.
#[derive(Debug)]
pub struct PackageResult {
    pub package: Package,
    pub tier1: TierResult,
    pub tier2: TierResult,
    pub tier2_score: u8,
    pub tier2_age_days: Option<u64>,
    pub tier2_downloads: Option<u64>,
    pub tier3: TierResult,
    pub verdict: Verdict,
    pub checked_at: Timestamp,
    pub ai_tool: Option<String>,
}

impl Clone for PackageResult {
    fn clone(&self) -> (r: Self)
        ensures
            r == *self,
    {
        PackageResult {
            package: self.package.clone(),
            tier1: self.tier1.clone(),
            tier2: self.tier2.clone(),
            tier2_score: self.tier2_score,
            tier2_age_days: self.tier2_age_days,
            tier2_downloads: self.tier2_downloads,
            tier3: self.tier3.clone(),
            verdict: self.verdict,
            checked_at: self.checked_at.clone(),
            ai_tool: match &self.ai_tool {
                Some(s) => Some(s.clone()),
                None => None,
            },
        }
    }
}

} // verus!
