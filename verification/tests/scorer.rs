use gard::scorer::aggregate;
use gard::types::{TierResult, Verdict};

#[test]
fn e2e_scorer_t3_block_overrides_t2_warn() {
    let v = aggregate(
        &TierResult::Pass,
        &TierResult::Warn { reason: "score 65".into() },
        &TierResult::Block { reason: "malicious code".into() },
    );
    assert_eq!(v, Verdict::Block);
}

#[test]
fn e2e_scorer_t1_block_dominates() {
    let v = aggregate(&TierResult::Block { reason: "known CVE".into() }, &TierResult::Pass, &TierResult::Skipped);
    assert_eq!(v, Verdict::Block);
}

#[test]
fn e2e_scorer_all_pass_gives_pass() {
    let v = aggregate(&TierResult::Pass, &TierResult::Pass, &TierResult::Skipped);
    assert_eq!(v, Verdict::Pass);
}

#[test]
fn e2e_scorer_t2_warn_gives_warn() {
    let v = aggregate(&TierResult::Pass, &TierResult::Warn { reason: "low downloads".into() }, &TierResult::Pass);
    assert_eq!(v, Verdict::Warn);
}

#[test]
fn errors_do_not_flag() {
    let v = aggregate(&TierResult::Error { message: "offline".into() }, &TierResult::Skipped, &TierResult::Pass);
    assert_eq!(v, Verdict::Pass);
}

#[test]
fn order_does_not_matter() {
    let w = || TierResult::Warn { reason: "w".into() };
    let b = || TierResult::Block { reason: "b".into() };
    assert_eq!(aggregate(&w(), &b(), &TierResult::Pass), aggregate(&b(), &w(), &TierResult::Pass));
    assert_eq!(aggregate(&TierResult::Pass, &w(), &b()), Verdict::Block);
}
