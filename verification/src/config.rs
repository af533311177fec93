//! The `.gard/config.toml` settings and their defaults.

use vstd::prelude::*;

verus! {

broadcast use vstd::string::group_string_axioms;

/// All settings.
#[derive(Debug)]
pub struct Config {
    pub general: GeneralConfig,
    pub protection: ProtectionConfig,
    pub tier2: Tier2Config,
    pub tier3: Tier3Config,
    pub allowlist: AllowlistConfig,
    pub report: ReportConfig,
    pub hooks: HooksConfig,
}

#[derive(Debug)]
pub struct GeneralConfig {
    pub version: String,
    pub author: String,
    pub sign_commits: bool,
}

#[derive(Debug)]
pub struct ProtectionConfig {
    pub pre_push_scan: bool,
    pub block_on_critical: bool,
    pub block_unsigned_push: bool,
}

/// Download and age thresholds of the metadata tier.
#[derive(Debug)]
pub struct Tier2Config {
    pub npm_warn_threshold: u64,
    pub npm_flag_threshold: u64,
    pub pypi_warn_threshold: u64,
    pub pypi_flag_threshold: u64,
    pub cargo_warn_threshold: u64,
    pub cargo_flag_threshold: u64,
    pub flag_if_newer_than_days: u32,
    pub warn_if_newer_than_days: u32,
}

/// Limits of the source analysis tier.
#[derive(Debug)]
pub struct Tier3Config {
    pub max_file_size_kb: u64,
    pub skip_minified: bool,
    pub obfuscation_block_score: u8,
}

#[derive(Debug)]
pub struct AllowlistConfig {
    pub packages: Vec<String>,
}

#[derive(Debug)]
pub struct ReportConfig {
    pub format: ReportFormat,
    pub show_suggestions: bool,
}

#[derive(Debug, Clone, Copy, PartialEq, Eq, Structural)]
pub enum ReportFormat {
    Terminal,
    Json,
    Sarif,
}

#[derive(Debug)]
pub struct HooksConfig {
    pub pre_commit: bool,
    pub post_commit: bool,
    pub pre_push: bool,
}

impl Default for GeneralConfig {
    fn default() -> (r: Self)
        ensures
            r.version@ == "1"@,
            r.author@.len() == 0,
            r.sign_commits,
    {
        GeneralConfig { version: "1".to_owned(), author: String::new(), sign_commits: true }
    }
}

impl Default for ProtectionConfig {
    fn default() -> (r: Self)
        ensures
            r.pre_push_scan,
            r.block_on_critical,
            !r.block_unsigned_push,
    {
        ProtectionConfig { pre_push_scan: true, block_on_critical: true, block_unsigned_push: false }
    }
}

impl Tier2Config {
    /// Whether these are the default thresholds.
    pub open spec fn is_default(self) -> bool {
        &&& self.npm_warn_threshold == 1_000
        &&& self.npm_flag_threshold == 100
        &&& self.pypi_warn_threshold == 2_000
        &&& self.pypi_flag_threshold == 500
        &&& self.cargo_warn_threshold == 500
        &&& self.cargo_flag_threshold == 100
        &&& self.flag_if_newer_than_days == 7
        &&& self.warn_if_newer_than_days == 30
    }
}

impl Default for Tier2Config {
    fn default() -> (r: Self)
        ensures
            r.is_default(),
    {
        Tier2Config {
            npm_warn_threshold: 1_000,
            npm_flag_threshold: 100,
            pypi_warn_threshold: 2_000,
            pypi_flag_threshold: 500,
            cargo_warn_threshold: 500,
            cargo_flag_threshold: 100,
            flag_if_newer_than_days: 7,
            warn_if_newer_than_days: 30,
        }
    }
}

impl Default for Tier3Config {
    fn default() -> (r: Self)
        ensures
            r.max_file_size_kb == 100,
            r.skip_minified,
            r.obfuscation_block_score == 80,
    {
        Tier3Config { max_file_size_kb: 100, skip_minified: true, obfuscation_block_score: 80 }
    }
}

impl Default for AllowlistConfig {
    fn default() -> (r: Self)
        ensures
            r.packages@.len() == 0,
    {
        AllowlistConfig { packages: Vec::new() }
    }
}

impl Default for ReportFormat {
    fn default() -> (r: Self)
        ensures
            r == ReportFormat::Terminal,
    {
        ReportFormat::Terminal
    }
}

impl Default for ReportConfig {
    fn default() -> (r: Self)
        ensures
            r.format == ReportFormat::Terminal,
            r.show_suggestions,
    {
        ReportConfig { format: ReportFormat::Terminal, show_suggestions: true }
    }
}

impl Default for HooksConfig {
    fn default() -> (r: Self)
        ensures
            !r.pre_commit,
            r.post_commit,
            r.pre_push,
    {
        HooksConfig { pre_commit: false, post_commit: true, pre_push: true }
    }
}

impl Default for Config {
    fn default() -> (r: Self)
        ensures
            r.general.version@ == "1"@,
            r.general.author@.len() == 0,
            r.general.sign_commits,
            r.protection.pre_push_scan,
            r.protection.block_on_critical,
            !r.protection.block_unsigned_push,
            r.tier2.is_default(),
            r.tier3.max_file_size_kb == 100,
            r.tier3.skip_minified,
            r.tier3.obfuscation_block_score == 80,
            r.allowlist.packages@.len() == 0,
            r.report.format == ReportFormat::Terminal,
            r.report.show_suggestions,
            !r.hooks.pre_commit,
            r.hooks.post_commit,
            r.hooks.pre_push,
    {
        Config {
            general: GeneralConfig::default(),
            protection: ProtectionConfig::default(),
            tier2: Tier2Config::default(),
            tier3: Tier3Config::default(),
            allowlist: AllowlistConfig::default(),
            report: ReportConfig::default(),
            hooks: HooksConfig::default(),
        }
    }
}

impl Config {
    /// Adds `name` to the allowlist unless it is there already; tells
    /// whether it was added.
    pub fn allow_package(&mut self, name: &str) -> (added: bool)
        ensures
            added <==> !(exists|i: int|
                0 <= i < old(self).allowlist.packages@.len()
                    && old(self).allowlist.packages@[i]@ == name@),
            added ==> final(self).allowlist.packages@.len() == old(self).allowlist.packages@.len()
                + 1 && final(self).allowlist.packages@.take(
                old(self).allowlist.packages@.len() as int,
            ) == old(self).allowlist.packages@ && final(self).allowlist.packages@.last()@
                == name@,
            !added ==> final(self).allowlist == old(self).allowlist,
            final(self).general == old(self).general,
            final(self).protection == old(self).protection,
            final(self).tier2 == old(self).tier2,
            final(self).tier3 == old(self).tier3,
            final(self).report == old(self).report,
            final(self).hooks == old(self).hooks,
    {
        if self.is_allowed(name) {
            return false;
        }
        self.allowlist.packages.push(name.to_owned());
        true
    }

    /// Whether `name` is on the allowlist.
    pub fn is_allowed(&self, name: &str) -> (r: bool)
        ensures
            r <==> exists|i: int|
                0 <= i < self.allowlist.packages@.len() && self.allowlist.packages@[i]@ == name@,
    {
        let target = name.to_owned();
        let n = self.allowlist.packages.len();
        for i in 0..n
            invariant
                n == self.allowlist.packages@.len(),
                target@ == name@,
                forall|j: int| 0 <= j < i ==> self.allowlist.packages@[j]@ != name@,
        {
            if self.allowlist.packages[i] == target {
                return true;
            }
        }
        false
    }
}

} // verus!
