//! Tier 2: a risk score from a package's age and download count.

use vstd::prelude::*;
use crate::config::{Config, Tier2Config};
use crate::text::{decimal, push_decimal, push_str, string_from_chars};
use crate::types::{Ecosystem, TierResult};

verus! {

broadcast use vstd::string::group_string_axioms;

/// The outcome of the metadata tier: its result, score, and the data used.
#[derive(Debug)]
pub struct Tier2Output {
    pub result: TierResult,
    pub score: u8,
    pub age_days: Option<u64>,
    pub downloads: Option<u64>,
}

/// Points for the package's age in days: 20 where unknown, 30 when newer
/// than the flag threshold, 15 when newer than the warn threshold, 5 when
/// newer than three times that, else 0.
pub open spec fn age_points(age_days: Option<u64>, t2: Tier2Config) -> nat {
    match age_days {
        None => 20,
        Some(d) => if d < t2.flag_if_newer_than_days {
            30
        } else if d < t2.warn_if_newer_than_days {
            15
        } else if d < 3 * t2.warn_if_newer_than_days {
            5
        } else {
            0
        },
    }
}

/// The (flag, warn) download thresholds for an ecosystem.
pub open spec fn download_thresholds(eco: Ecosystem, t2: Tier2Config) -> (u64, u64) {
    match eco {
        Ecosystem::Npm => (t2.npm_flag_threshold, t2.npm_warn_threshold),
        Ecosystem::PyPI => (t2.pypi_flag_threshold, t2.pypi_warn_threshold),
        Ecosystem::Cargo => (t2.cargo_flag_threshold, t2.cargo_warn_threshold),
    }
}

/// Points for the weekly downloads: 20 where unknown, 30 below the flag
/// threshold, 15 below the warn threshold, 5 below ten times that, else 0.
pub open spec fn download_points(downloads: Option<u64>, eco: Ecosystem, t2: Tier2Config) -> nat {
    let (flag, warn) = download_thresholds(eco, t2);
    match downloads {
        None => 20,
        Some(d) => if d < flag {
            30
        } else if d < warn {
            15
        } else if d < 10 * warn {
            5
        } else {
            0
        },
    }
}

/// The risk score: the sum of both, capped at 100.
pub open spec fn spec_score(
    age_days: Option<u64>,
    downloads: Option<u64>,
    eco: Ecosystem,
    t2: Tier2Config,
) -> nat {
    let s = age_points(age_days, t2) + download_points(downloads, eco, t2);
    if s > 100 {
        100
    } else {
        s
    }
}

proof fn lemma_below_tenfold(d: u64, w: u64)
    ensures
        (d / 10 < w) <==> (d < 10 * w),
{
    assert((d / 10 < w) <==> (d < 10 * w)) by (nonlinear_arith);
}

/// The risk score (0–100) of a package from its age and downloads.
pub fn compute_score(
    age_days: Option<u64>,
    downloads: Option<u64>,
    ecosystem: &Ecosystem,
    cfg: &Config,
) -> (r: u8)
    ensures
        r == spec_score(age_days, downloads, *ecosystem, cfg.tier2),
        r <= 60,
{
    let t2 = &cfg.tier2;
    let age_score: u8 = match age_days {
        None => 20,
        Some(d) => {
            let flag = t2.flag_if_newer_than_days as u64;
            let warn = t2.warn_if_newer_than_days as u64;
            if d < flag {
                30
            } else if d < warn {
                15
            } else if d < warn * 3 {
                5
            } else {
                0
            }
        },
    };
    let (flag_dl, warn_dl) = match ecosystem {
        Ecosystem::Npm => (t2.npm_flag_threshold, t2.npm_warn_threshold),
        Ecosystem::PyPI => (t2.pypi_flag_threshold, t2.pypi_warn_threshold),
        Ecosystem::Cargo => (t2.cargo_flag_threshold, t2.cargo_warn_threshold),
    };
    let dl_score: u8 = match downloads {
        None => 20,
        Some(d) => {
            proof {
                lemma_below_tenfold(d, warn_dl);
            }
            if d < flag_dl {
                30
            } else if d < warn_dl {
                15
            } else if d / 10 < warn_dl {
                5
            } else {
                0
            }
        },
    };
    let s = age_score + dl_score;
    if s > 100 {
        100
    } else {
        s
    }
}

/// The reason given for a score: `"risk score {score}/100 — "` and the
/// explanation for its band.
pub open spec fn score_reason(score: u8) -> Seq<char> {
    "risk score "@ + decimal(score as nat) + (if score <= 60 {
        "/100 — low download count or recent package"@
    } else {
        "/100 — flagged for source analysis"@
    })
}

/// The tier-2 result for a score: `Pass` up to 40, else `Warn`.
pub fn score_to_result(score: u8) -> (r: TierResult)
    ensures
        score <= 40 ==> r == TierResult::Pass,
        score > 40 ==> (r matches TierResult::Warn { reason } && reason@ == score_reason(score)),
{
    if score <= 40 {
        return TierResult::Pass;
    }
    let mut out: Vec<char> = Vec::new();
    push_str(&mut out, "risk score ");
    push_decimal(&mut out, score as u64);
    if score <= 60 {
        push_str(&mut out, "/100 — low download count or recent package");
    } else {
        push_str(&mut out, "/100 — flagged for source analysis");
    }
    TierResult::Warn { reason: string_from_chars(&out) }
}

/// The metadata tier's outcome for a package's age and downloads.
pub fn assess(
    age_days: Option<u64>,
    downloads: Option<u64>,
    ecosystem: &Ecosystem,
    cfg: &Config,
) -> (r: Tier2Output)
    ensures
        r.score == spec_score(age_days, downloads, *ecosystem, cfg.tier2),
        r.score <= 40 ==> r.result == TierResult::Pass,
        r.score > 40 ==> (r.result matches TierResult::Warn { reason } && reason@ == score_reason(
            r.score,
        )),
        r.age_days == age_days,
        r.downloads == downloads,
{
    let score = compute_score(age_days, downloads, ecosystem, cfg);
    let result = score_to_result(score);
    Tier2Output { result, score, age_days, downloads }
}

/// The metadata tier never blocks a package by itself.
pub proof fn lemma_tier2_never_blocks(score: u8, r: TierResult)
    requires
        score <= 40 ==> r == TierResult::Pass,
        score > 40 ==> r matches TierResult::Warn { .. },
    ensures
        !r.spec_is_blocking(),
{
}

/// An older package never scores higher than a newer one with the same
/// downloads.
pub proof fn lemma_score_antitone_in_age(
    a1: u64,
    a2: u64,
    downloads: Option<u64>,
    eco: Ecosystem,
    t2: Tier2Config,
)
    requires
        a1 <= a2,
    ensures
        spec_score(Some(a2), downloads, eco, t2) <= spec_score(Some(a1), downloads, eco, t2),
{
}

/// A package with more downloads never scores higher than one with fewer
/// at the same age.
pub proof fn lemma_score_antitone_in_downloads(
    d1: u64,
    d2: u64,
    age_days: Option<u64>,
    eco: Ecosystem,
    t2: Tier2Config,
)
    requires
        d1 <= d2,
    ensures
        spec_score(age_days, Some(d2), eco, t2) <= spec_score(age_days, Some(d1), eco, t2),
{
}

/// The score never exceeds 60, so the metadata tier alone can at most warn.
pub proof fn lemma_score_at_most_sixty(
    age_days: Option<u64>,
    downloads: Option<u64>,
    eco: Ecosystem,
    t2: Tier2Config,
)
    ensures
        spec_score(age_days, downloads, eco, t2) <= 60,
{
}

// ── Registry dates ──────────────────────────────────────────────────────────

/// The UTC instant of an RFC 3339 text as chrono reads it: whole seconds
/// since the Unix epoch and the nanoseconds past them; `None` where chrono
/// rejects the text.
pub uninterp spec fn rfc3339_instant(text: Seq<char>) -> Option<(i64, u32)>;

/// Calls `chrono::DateTime::parse_from_rfc3339(text)` and, where it
/// succeeds, `DateTime::timestamp` and `DateTime::timestamp_subsec_nanos`.
/// Claimed: the result is `rfc3339_instant` of the text.
#[verifier::external_body]
fn parse_rfc3339(text: &str) -> (r: Option<(i64, u32)>)
    ensures
        r == rfc3339_instant(text@),
{
    match chrono::DateTime::parse_from_rfc3339(text) {
        Ok(d) => Some((d.timestamp(), d.timestamp_subsec_nanos())),
        Err(_) => None,
    }
}

/// The instant of a date and time without a zone, read by chrono with the
/// strftime `format` and taken as UTC: whole seconds since the Unix epoch
/// and the nanoseconds past them; `None` where chrono rejects the text.
pub uninterp spec fn naive_utc_instant(text: Seq<char>, format: Seq<char>) -> Option<(i64, u32)>;

/// Calls `chrono::NaiveDateTime::parse_from_str(text, format)` and, where it
/// succeeds, `NaiveDateTime::and_utc`, `DateTime::timestamp` and
/// `DateTime::timestamp_subsec_nanos`. Claimed: the result is
/// `naive_utc_instant` of the arguments.
#[verifier::external_body]
fn parse_naive_utc(text: &str, format: &str) -> (r: Option<(i64, u32)>)
    ensures
        r == naive_utc_instant(text@, format@),
{
    match chrono::NaiveDateTime::parse_from_str(text, format) {
        Ok(d) => Some((d.and_utc().timestamp(), d.and_utc().timestamp_subsec_nanos())),
        Err(_) => None,
    }
}

/// How PyPI writes an upload time: UTC, without a zone.
pub const PYPI_UPLOAD_FORMAT: &'static str = "%Y-%m-%dT%H:%M:%S";

/// Whole days from `then` to `now` (each as seconds and nanoseconds since
/// the Unix epoch), 0 where `now` is not later.
pub open spec fn days_between(then: (i64, u32), now: (i64, u32)) -> nat {
    let d = (now.0 - then.0) * 1_000_000_000 + now.1 - then.1;
    if d <= 0 {
        0
    } else {
        (d / 86_400_000_000_000) as nat
    }
}

/// Whole days from `then` to `now`, 0 where `now` is not later.
pub fn days_since(then: (i64, u32), now_secs: i64, now_nanos: u32) -> (r: u64)
    ensures
        r == days_between(then, (now_secs, now_nanos)),
{
    let ds: i128 = now_secs as i128 - then.0 as i128;
    assert(-0x1_0000_0000_0000_0000 <= ds <= 0x1_0000_0000_0000_0000);
    assert(-0x1_0000_0000_0000_0000 * 1_000_000_000 <= ds * 1_000_000_000
        <= 0x1_0000_0000_0000_0000 * 1_000_000_000) by (nonlinear_arith)
        requires
            -0x1_0000_0000_0000_0000 <= ds <= 0x1_0000_0000_0000_0000,
    ;
    let d: i128 = ds * 1_000_000_000 + now_nanos as i128 - then.1 as i128;
    if d <= 0 {
        return 0;
    }
    let q: i128 = d / 86_400_000_000_000;
    assert(q <= d) by (nonlinear_arith)
        requires
            d > 0,
            q == d / 86_400_000_000_000,
    ;
    assert(q < 0x1_0000_0000_0000_0000) by (nonlinear_arith)
        requires
            0 < d <= 0x1_0000_0000_0000_0000 * 1_000_000_000 + 0x1_0000_0000,
            q == d / 86_400_000_000_000,
    ;
    q as u64
}

/// The age in days of a package whose registry gives `created` as its first
/// publication: PyPI upload times are read in `PYPI_UPLOAD_FORMAT`, npm and
/// crates.io times as RFC 3339; `None` where there is no time or it does
/// not parse.
pub open spec fn spec_registry_age(eco: Ecosystem, created: Option<Seq<char>>, now: (i64, u32)) -> Option<
    nat,
> {
    match created {
        None => None,
        Some(t) => {
            let instant = if eco == Ecosystem::PyPI {
                naive_utc_instant(t, PYPI_UPLOAD_FORMAT@)
            } else {
                rfc3339_instant(t)
            };
            match instant {
                Some(i) => Some(days_between(i, now)),
                None => None,
            }
        },
    }
}

pub open spec fn opt_str_view(o: Option<&str>) -> Option<Seq<char>> {
    match o {
        Some(s) => Some(s@),
        None => None,
    }
}

/// The age in days that tier 2 scores, from the creation or upload time
/// that the registry reports and the current time.
pub fn registry_age_days(eco: &Ecosystem, created: Option<&str>, now_secs: i64, now_nanos: u32) -> (r:
    Option<u64>)
    ensures
        match r {
            Some(d) => spec_registry_age(*eco, opt_str_view(created), (now_secs, now_nanos)) == Some(
                d as nat,
            ),
            None => spec_registry_age(*eco, opt_str_view(created), (now_secs, now_nanos)) is None,
        },
{
    let text = match created {
        Some(t) => t,
        None => {
            return None;
        },
    };
    let instant = if *eco == Ecosystem::PyPI {
        parse_naive_utc(text, PYPI_UPLOAD_FORMAT)
    } else {
        parse_rfc3339(text)
    };
    match instant {
        Some(i) => Some(days_since(i, now_secs, now_nanos)),
        None => None,
    }
}

/// The first upload time that PyPI lists among a release's files.
pub open spec fn first_some(s: Seq<Option<String>>) -> Option<Seq<char>>
    decreases s.len(),
{
    if s.len() == 0 {
        None
    } else {
        match s[0] {
            Some(t) => Some(t@),
            None => first_some(s.drop_first()),
        }
    }
}

/// The first upload time among a release's files (those that give one).
pub fn first_upload_time(upload_times: &Vec<Option<String>>) -> (r: Option<String>)
    ensures
        match r {
            Some(t) => first_some(upload_times@) == Some(t@),
            None => first_some(upload_times@) is None,
        },
{
    let n = upload_times.len();
    proof {
        assert(upload_times@.skip(0) == upload_times@);
    }
    for i in 0..n
        invariant
            n == upload_times.len(),
            first_some(upload_times@) == first_some(upload_times@.skip(i as int)),
    {
        proof {
            assert(upload_times@.skip(i as int)[0] == upload_times@[i as int]);
            assert(upload_times@.skip(i as int).drop_first() == upload_times@.skip(i + 1));
        }
        match &upload_times[i] {
            Some(t) => {
                return Some(t.clone());
            },
            None => {},
        }
    }
    proof {
        assert(upload_times@.skip(n as int).len() == 0);
    }
    None
}

} // verus!
