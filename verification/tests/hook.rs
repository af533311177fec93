use gard::hook::{
    gard_block, inject_block, plan_install, plan_uninstall, remove_block, HookInstall,
    HookUninstall, MARKER_END, MARKER_START,
};

fn installed(existing: Option<&str>) -> String {
    match plan_install(existing) {
        HookInstall::Create { content } | HookInstall::Merge { content } => content,
        HookInstall::AlreadyInstalled => panic!("expected a write"),
    }
}

#[test]
fn install_creates_hook() {
    let content = installed(None);
    assert!(content.contains(MARKER_START));
    assert!(content.contains("gard scan"));
    assert!(content.starts_with("#!/bin/sh\n"));
}

#[test]
fn install_is_idempotent() {
    let content = installed(None);
    assert_eq!(plan_install(Some(content.as_str())), HookInstall::AlreadyInstalled);
    assert_eq!(content.matches(MARKER_START).count(), 1);
}

#[test]
fn install_merges_existing_hook() {
    let existing = "#!/bin/sh\nnpm run pre-push-checks\n";
    match plan_install(Some(existing)) {
        HookInstall::Merge { content } => {
            assert!(content.contains(MARKER_START));
            assert!(content.contains("npm run pre-push-checks"));
            assert_eq!(content, format!("#!/bin/sh\n{}npm run pre-push-checks\n", gard_block()));
        }
        other => panic!("expected a merge, got {other:?}"),
    }
}

#[test]
fn uninstall_removes_hook() {
    let content = installed(None);
    assert_eq!(plan_uninstall(&content), HookUninstall::RemoveHook);
}

#[test]
fn uninstall_preserves_original_content() {
    let content = installed(Some("#!/bin/sh\nnpm run checks\n"));
    match plan_uninstall(&content) {
        HookUninstall::Rewrite { content } => {
            assert!(!content.contains(MARKER_START));
            assert!(content.contains("npm run checks"));
            assert_eq!(content, "#!/bin/sh\nnpm run checks\n");
        }
        other => panic!("expected a rewrite, got {other:?}"),
    }
}

#[test]
fn block_text() {
    assert_eq!(
        gard_block(),
        format!("{MARKER_START}\ngard scan --packages --quiet\nif [ $? -ne 0 ]; then exit 1; fi\n{MARKER_END}\n")
    );
}

#[test]
fn inject_after_each_shebang() {
    assert_eq!(inject_block("#!/bin/bash\necho hi\n", "B\n"), "#!/bin/bash\nB\necho hi\n");
    assert_eq!(inject_block("#!/usr/bin/env sh\nx", "B\n"), "#!/usr/bin/env sh\nB\nx");
    assert_eq!(inject_block("echo hi\n", "B\n"), "#!/bin/sh\nB\necho hi\n");
    assert_eq!(inject_block("", "B\n"), "#!/bin/sh\nB\n");
    assert_eq!(inject_block("#!/bin/zsh\nx\n", "B\n"), "#!/bin/sh\nB\n#!/bin/zsh\nx\n");
}

#[test]
fn remove_block_drops_marked_lines() {
    let content = format!("#!/bin/sh\n  {MARKER_START}\nx\n{MARKER_END}\ny\r\nz");
    assert_eq!(remove_block(&content), "#!/bin/sh\ny\nz\n");
    assert_eq!(remove_block(""), "\n");
    assert_eq!(remove_block("a\n\n"), "a\n");
    // a block that is never closed runs to the end
    assert_eq!(remove_block(&format!("a\n{MARKER_START}\nb\n")), "a\n");
}

#[test]
fn install_then_uninstall_round_trips() {
    for e in ["#!/bin/bash\nmake lint\nmake test\n", "#!/usr/bin/env sh\n", "echo hi\n"] {
        let merged = installed(Some(e));
        let expected = if e.starts_with("#!") { e.to_string() } else { format!("#!/bin/sh\n{e}") };
        assert_eq!(remove_block(&merged), expected);
    }
}

#[test]
fn install_marks_once() {
    for existing in ["#!/bin/sh\nnpm run checks\n", "#!/bin/bash\necho hi\n", "echo no shebang\n", ""] {
        match plan_install(Some(existing)) {
            HookInstall::Merge { content } => {
                assert_eq!(content.matches(MARKER_START).count(), 1);
                assert_eq!(plan_install(Some(&content)), HookInstall::AlreadyInstalled);
            }
            other => panic!("expected a merge, got {other:?}"),
        }
    }
    match plan_install(None) {
        HookInstall::Create { content } => assert_eq!(content.matches(MARKER_START).count(), 1),
        other => panic!("expected a new hook, got {other:?}"),
    }
}
