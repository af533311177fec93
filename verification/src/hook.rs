//! The gard block in the git `pre-push` hook: what installing writes and
//! what uninstalling leaves.

use vstd::prelude::*;
use crate::text::{
    chars_of, contains, find, find_exec, join, lines, push_chars, push_str, split_lines,
    starts_with, starts_with_exec, string_from_chars, trim, trim_chars, trim_start,
    trim_start_index, slice_chars, lemma_lines_cons, lemma_join_cons, lemma_join_lines_roundtrip,
    lemma_lines_nonempty, lemma_occurs_then_contains, join_chars, occurs_at,
    lemma_find_from_props,
};

verus! {

broadcast use vstd::string::group_string_axioms;

/// The line that opens the gard block.
pub const MARKER_START: &'static str = "# --- gard (auto-injected) ---";

/// The line that closes the gard block.
pub const MARKER_END: &'static str = "# --- end gard ---";

/// The commands that the gard block runs.
pub const GARD_SNIPPET: &'static str = "gard scan --packages --quiet\nif [ $? -ne 0 ]; then exit 1; fi";

pub open spec fn marker_start() -> Seq<char> {
    "# --- gard (auto-injected) ---"@
}

pub open spec fn marker_end() -> Seq<char> {
    "# --- end gard ---"@
}

/// The gard block: the opening marker, the snippet and the closing marker,
/// each on its own line.
pub open spec fn spec_gard_block() -> Seq<char> {
    marker_start() + "\n"@ + GARD_SNIPPET@ + "\n"@ + marker_end() + "\n"@
}

/// The gard block.
pub fn gard_block() -> (r: String)
    ensures
        r@ == spec_gard_block(),
{
    let mut out: Vec<char> = Vec::new();
    push_str(&mut out, MARKER_START);
    push_str(&mut out, "\n");
    push_str(&mut out, GARD_SNIPPET);
    push_str(&mut out, "\n");
    push_str(&mut out, MARKER_END);
    push_str(&mut out, "\n");
    proof {
        assert(Seq::<char>::empty() + marker_start() == marker_start());
    }
    string_from_chars(&out)
}

/// `existing` with `block` put right after its shebang line (`#!/bin/sh`,
/// `#!/bin/bash` or `#!/usr/bin/env sh`), or after a new `#!/bin/sh` line
/// where it has none of them.
pub open spec fn spec_inject(existing: Seq<char>, block: Seq<char>) -> Seq<char> {
    if starts_with(existing, "#!/bin/sh\n"@) {
        "#!/bin/sh\n"@ + block + existing.skip("#!/bin/sh\n"@.len() as int)
    } else if starts_with(existing, "#!/bin/bash\n"@) {
        "#!/bin/bash\n"@ + block + existing.skip("#!/bin/bash\n"@.len() as int)
    } else if starts_with(existing, "#!/usr/bin/env sh\n"@) {
        "#!/usr/bin/env sh\n"@ + block + existing.skip("#!/usr/bin/env sh\n"@.len() as int)
    } else {
        "#!/bin/sh\n"@ + block + existing
    }
}

/// Puts `block` into an existing hook, after its shebang line.
pub fn inject_block(existing: &str, block: &str) -> (r: String)
    ensures
        r@ == spec_inject(existing@, block@),
{
    let e = chars_of(existing);
    let shebangs: Vec<&'static str> = vec!["#!/bin/sh\n", "#!/bin/bash\n", "#!/usr/bin/env sh\n"];
    let mut i: usize = 0;
    while i < 3
        invariant
            shebangs@.len() == 3,
            shebangs@[0]@ == "#!/bin/sh\n"@,
            shebangs@[1]@ == "#!/bin/bash\n"@,
            shebangs@[2]@ == "#!/usr/bin/env sh\n"@,
            e@ == existing@,
            i <= 3,
            forall|k: int| 0 <= k < i ==> !starts_with(e@, #[trigger] shebangs@[k]@),
        decreases 3 - i,
    {
        let sb = chars_of(shebangs[i]);
        if starts_with_exec(&e, &sb) {
            let mut out: Vec<char> = Vec::new();
            push_str(&mut out, shebangs[i]);
            push_str(&mut out, block);
            let rest = slice_chars(&e, sb.len(), e.len());
            push_chars(&mut out, &rest);
            proof {
                assert(Seq::<char>::empty() + sb@ == sb@);
                assert(e@.subrange(sb@.len() as int, e@.len() as int) == e@.skip(sb@.len() as int));
                if i >= 1 {
                    assert(!starts_with(e@, shebangs@[0]@));
                }
                if i >= 2 {
                    assert(!starts_with(e@, shebangs@[1]@));
                }
            }
            return string_from_chars(&out);
        }
        i += 1;
    }
    proof {
        assert(!starts_with(e@, shebangs@[0]@));
        assert(!starts_with(e@, shebangs@[1]@));
        assert(!starts_with(e@, shebangs@[2]@));
    }
    let mut out: Vec<char> = Vec::new();
    push_str(&mut out, "#!/bin/sh\n");
    push_str(&mut out, block);
    push_str(&mut out, existing);
    proof {
        assert(Seq::<char>::empty() + "#!/bin/sh\n"@ == "#!/bin/sh\n"@);
    }
    string_from_chars(&out)
}

/// The lines of `ls` outside gard blocks: a line whose text (after leading
/// whitespace) starts with the opening marker starts a block, one that starts
/// with the closing marker ends it, and both marker lines are dropped.
pub open spec fn lines_outside_block(ls: Seq<Seq<char>>, in_block: bool) -> Seq<Seq<char>>
    decreases ls.len(),
{
    if ls.len() == 0 {
        Seq::empty()
    } else {
        let l = ls[0];
        let t = trim_start(l);
        if starts_with(t, marker_start()) {
            lines_outside_block(ls.drop_first(), true)
        } else if starts_with(t, marker_end()) {
            lines_outside_block(ls.drop_first(), false)
        } else if in_block {
            lines_outside_block(ls.drop_first(), true)
        } else {
            seq![l] + lines_outside_block(ls.drop_first(), false)
        }
    }
}

/// The hook text without its gard block: the remaining lines joined by
/// newlines, ending in a newline.
pub open spec fn spec_remove_block(content: Seq<char>) -> Seq<char> {
    let j = join(lines_outside_block(lines(content), false), "\n"@);
    if j.len() > 0 && j.last() == '\n' {
        j
    } else {
        j + "\n"@
    }
}

/// The hook text without the gard block.
pub fn remove_block(content: &str) -> (r: String)
    ensures
        r@ == spec_remove_block(content@),
{
    let v = chars_of(content);
    let ls = split_lines(&v);
    let ghost lv = ls.deep_view();
    let ms = chars_of(MARKER_START);
    let me = chars_of(MARKER_END);
    let mut kept: Vec<Vec<char>> = Vec::new();
    let mut in_block = false;
    let n = ls.len();
    proof {
        assert(lv.skip(0) == lv);
        assert(kept.deep_view() =~= Seq::<Seq<char>>::empty());
    }
    for i in 0..n
        invariant
            n == ls.len(),
            lv == ls.deep_view(),
            lv == lines(content@),
            ms@ == marker_start(),
            me@ == marker_end(),
            lines_outside_block(lv, false) == kept.deep_view() + lines_outside_block(
                lv.skip(i as int),
                in_block,
            ),
    {
        let line = &ls[i];
        proof {
            assert(line@ == lv[i as int]);
            assert(lv.skip(i as int)[0] == lv[i as int]);
            assert(lv.skip(i as int).drop_first() == lv.skip(i + 1));
        }
        let k = trim_start_index(line, 0, line.len());
        let t = slice_chars(line, k, line.len());
        proof {
            assert(line@.subrange(0, line@.len() as int) == line@);
        }
        if starts_with_exec(&t, &ms) {
            in_block = true;
        } else if starts_with_exec(&t, &me) {
            in_block = false;
        } else if !in_block {
            let ghost prev = kept.deep_view();
            let copy = slice_chars(line, 0, line.len());
            proof {
                assert(copy.deep_view() =~= copy@);
            }
            kept.push(copy);
            proof {
                assert(kept.deep_view() =~= prev.push(line@));
                assert(prev.push(line@) + lines_outside_block(lv.skip(i + 1), false) == prev + (seq![line@] + lines_outside_block(lv.skip(i + 1), false)));
            }
        }
    }
    proof {
        assert(lv.skip(n as int) =~= Seq::<Seq<char>>::empty());
        assert(kept.deep_view() + Seq::<Seq<char>>::empty() == kept.deep_view());
    }
    let mut out = join_chars(&kept, "\n");
    let m = out.len();
    if m == 0 || out[m - 1] != '\n' {
        out.push('\n');
        proof {
            reveal_strlit("\n");
        }
    }
    string_from_chars(&out)
}

/// What installing the hook does.
#[derive(Debug, PartialEq, Eq)]
pub enum HookInstall {
    /// The hook already holds the gard block: nothing to do.
    AlreadyInstalled,
    /// Back up the existing hook to `pre-push.bak` and write `content`.
    Merge { content: String },
    /// There is no hook: write `content`.
    Create { content: String },
}

/// What installing does to a hook with this content (`None`: no hook).
pub fn plan_install(existing: Option<&str>) -> (r: HookInstall)
    ensures
        match existing {
            None => r matches HookInstall::Create { content } && content@ == "#!/bin/sh\n"@
                + spec_gard_block(),
            Some(e) => if contains(e@, marker_start()) {
                r == HookInstall::AlreadyInstalled
            } else {
                r matches HookInstall::Merge { content } && content@ == spec_inject(
                    e@,
                    spec_gard_block(),
                )
            },
        },
{
    let block = gard_block();
    match existing {
        None => {
            let mut out: Vec<char> = Vec::new();
            push_str(&mut out, "#!/bin/sh\n");
            push_str(&mut out, block.as_str());
            proof {
                assert(Seq::<char>::empty() + "#!/bin/sh\n"@ == "#!/bin/sh\n"@);
            }
            HookInstall::Create { content: string_from_chars(&out) }
        },
        Some(e) => {
            let ev = chars_of(e);
            let ms = chars_of(MARKER_START);
            if find_exec(&ev, &ms).is_some() {
                HookInstall::AlreadyInstalled
            } else {
                HookInstall::Merge { content: inject_block(e, block.as_str()) }
            }
        },
    }
}

/// What uninstalling does.
#[derive(Debug, PartialEq, Eq)]
pub enum HookUninstall {
    /// Nothing but the shebang would be left: delete the hook and restore
    /// `pre-push.bak` where there is one.
    RemoveHook,
    /// Write the hook without the gard block.
    Rewrite { content: String },
}

/// The number of lines of `ls` that are not blank.
pub open spec fn nonblank_lines(ls: Seq<Seq<char>>) -> nat
    decreases ls.len(),
{
    if ls.len() == 0 {
        0
    } else {
        nonblank_lines(ls.drop_last()) + if trim(ls.last()).len() > 0 {
            1nat
        } else {
            0nat
        }
    }
}

/// What uninstalling does to a hook with this content: without the gard
/// block, at most one non-blank line (the shebang) left means the hook goes.
pub fn plan_uninstall(content: &str) -> (r: HookUninstall)
    ensures
        nonblank_lines(lines(spec_remove_block(content@))) <= 1 ==> r == HookUninstall::RemoveHook,
        nonblank_lines(lines(spec_remove_block(content@))) > 1 ==> (r matches HookUninstall::Rewrite {
            content: c,
        } && c@ == spec_remove_block(content@)),
{
    let stripped = remove_block(content);
    let v = chars_of(stripped.as_str());
    let ls = split_lines(&v);
    let ghost lv = ls.deep_view();
    let n = ls.len();
    let mut count: usize = 0;
    for i in 0..n
        invariant
            n == ls.len(),
            lv == ls.deep_view(),
            count == nonblank_lines(lv.take(i as int)),
            count <= i,
    {
        proof {
            assert(lv.take(i + 1).drop_last() == lv.take(i as int));
            assert(ls[i as int]@ == lv[i as int]);
        }
        let t = trim_chars(&ls[i]);
        if t.len() > 0 {
            count += 1;
        }
    }
    proof {
        assert(lv.take(n as int) == lv);
    }
    if count <= 1 {
        HookUninstall::RemoveHook
    } else {
        HookUninstall::Rewrite { content: stripped }
    }
}

} // verus!

verus! {

// ── Laws ────────────────────────────────────────────────────────────────────

/// The hook text after its shebang line, or all of it where it has none of
/// the three that installing recognizes.
pub open spec fn hook_body(e: Seq<char>) -> Seq<char> {
    if starts_with(e, "#!/bin/sh\n"@) {
        e.skip("#!/bin/sh\n"@.len() as int)
    } else if starts_with(e, "#!/bin/bash\n"@) {
        e.skip("#!/bin/bash\n"@.len() as int)
    } else if starts_with(e, "#!/usr/bin/env sh\n"@) {
        e.skip("#!/usr/bin/env sh\n"@.len() as int)
    } else {
        e
    }
}

/// Whether no line of `ls` starts (after leading whitespace) with a marker.
pub open spec fn no_marker_lines(ls: Seq<Seq<char>>) -> bool {
    forall|k: int|
        0 <= k < ls.len() ==> !starts_with(trim_start(#[trigger] ls[k]), marker_start())
            && !starts_with(trim_start(ls[k]), marker_end())
}

/// A hook body that survives installing and uninstalling unchanged: no
/// carriage return, no line starting with a gard marker, and either empty
/// or ending in exactly one newline.
pub open spec fn is_plain_body(b: Seq<char>) -> bool {
    &&& forall|j: int| 0 <= j < b.len() ==> b[j] != '\r'
    &&& no_marker_lines(lines(b))
    &&& b.len() == 0 || (b.len() >= 2 && b.last() == '\n' && b[b.len() - 2] != '\n')
}

proof fn lemma_outside_block_plain(ls: Seq<Seq<char>>)
    requires
        no_marker_lines(ls),
    ensures
        lines_outside_block(ls, false) == ls,
    decreases ls.len(),
{
    if ls.len() > 0 {
        assert(!starts_with(trim_start(ls[0]), marker_start()));
        assert(no_marker_lines(ls.drop_first())) by {
            assert forall|k: int| 0 <= k < ls.drop_first().len() implies !starts_with(
                trim_start(#[trigger] ls.drop_first()[k]),
                marker_start(),
            ) && !starts_with(trim_start(ls.drop_first()[k]), marker_end()) by {
                assert(ls.drop_first()[k] == ls[k + 1]);
            }
        }
        lemma_outside_block_plain(ls.drop_first());
        assert(seq![ls[0]] + ls.drop_first() == ls);
    }
}

/// Removing the gard block from `sh_line`, a newline, the block and a
/// plain body gives back the shebang line and the body.
proof fn lemma_remove_after_shebang(sh_line: Seq<char>, body: Seq<char>)
    requires
        sh_line == "#!/bin/sh"@ || sh_line == "#!/bin/bash"@ || sh_line == "#!/usr/bin/env sh"@,
        is_plain_body(body),
    ensures
        spec_remove_block(sh_line + "\n"@ + spec_gard_block() + body) == sh_line + "\n"@ + body,
{
    reveal_strlit("#!/bin/sh");
    reveal_strlit("#!/bin/bash");
    reveal_strlit("#!/usr/bin/env sh");
    reveal_strlit("\n");
    reveal_strlit("# --- gard (auto-injected) ---");
    reveal_strlit("# --- end gard ---");
    reveal_strlit("gard scan --packages --quiet\nif [ $? -ne 0 ]; then exit 1; fi");
    reveal_strlit("gard scan --packages --quiet");
    reveal_strlit("if [ $? -ne 0 ]; then exit 1; fi");
    let nl = seq!['\n'];
    let ms = marker_start();
    let me = marker_end();
    let s1 = "gard scan --packages --quiet"@;
    let s2 = "if [ $? -ne 0 ]; then exit 1; fi"@;
    assert("\n"@ == nl);
    assert(GARD_SNIPPET@ == s1 + nl + s2);
    let t = sh_line + "\n"@ + spec_gard_block() + body;
    assert(t == sh_line + nl + (ms + nl + (s1 + nl + (s2 + nl + (me + nl + body)))));
    // the lines of `t`
    assert(forall|j: int| 0 <= j < sh_line.len() ==> sh_line[j] != '\n');
    assert(forall|j: int| 0 <= j < ms.len() ==> ms[j] != '\n');
    assert(forall|j: int| 0 <= j < s1.len() ==> s1[j] != '\n');
    assert(forall|j: int| 0 <= j < s2.len() ==> s2[j] != '\n');
    assert(forall|j: int| 0 <= j < me.len() ==> me[j] != '\n');
    lemma_lines_cons(me, body);
    lemma_lines_cons(s2, me + nl + body);
    lemma_lines_cons(s1, s2 + nl + (me + nl + body));
    lemma_lines_cons(ms, s1 + nl + (s2 + nl + (me + nl + body)));
    lemma_lines_cons(sh_line, ms + nl + (s1 + nl + (s2 + nl + (me + nl + body))));
    let lb = lines(body);
    let ls = seq![sh_line] + (seq![ms] + (seq![s1] + (seq![s2] + (seq![me] + lb))));
    assert(lines(t) == ls);
    // which of them stay
    assert(trim_start(sh_line) == sh_line);
    assert(trim_start(ms) == ms);
    assert(trim_start(s1) == s1);
    assert(trim_start(s2) == s2);
    assert(trim_start(me) == me);
    assert(!starts_with(s1, me)) by {
        assert(s1.take(me.len() as int)[0] != me[0]);
    }
    assert(!starts_with(s2, ms)) by {
        assert(s2.take(ms.len() as int)[0] != ms[0]);
    }
    assert(!starts_with(s2, me)) by {
        assert(s2.take(me.len() as int)[0] != me[0]);
    }
    assert(starts_with(ms, ms)) by {
        assert(ms.take(ms.len() as int) == ms);
    }
    assert(starts_with(me, me)) by {
        assert(me.take(me.len() as int) == me);
    }
    assert(ls.drop_first() == seq![ms] + (seq![s1] + (seq![s2] + (seq![me] + lb))));
    assert((seq![ms] + (seq![s1] + (seq![s2] + (seq![me] + lb)))).drop_first() == seq![s1] + (seq![s2] + (seq![me] + lb)));
    assert((seq![s1] + (seq![s2] + (seq![me] + lb))).drop_first() == seq![s2] + (seq![me] + lb));
    assert((seq![s2] + (seq![me] + lb)).drop_first() == seq![me] + lb);
    assert((seq![me] + lb).drop_first() == lb);
    lemma_outside_block_plain(lb);
    let l5 = seq![me] + lb;
    let l4 = seq![s2] + l5;
    let l3 = seq![s1] + l4;
    let l2 = seq![ms] + l3;
    assert(!starts_with(me, ms));
    assert(!starts_with(s1, ms));
    assert(!starts_with(sh_line, ms));
    assert(!starts_with(sh_line, me));
    assert(l5[0] == me && l5.drop_first() == lb);
    assert(lines_outside_block(l5, true) == lines_outside_block(lb, false));
    assert(l4[0] == s2 && l4.drop_first() == l5);
    assert(lines_outside_block(l4, true) == lines_outside_block(l5, true));
    assert(l3[0] == s1 && l3.drop_first() == l4);
    assert(lines_outside_block(l3, true) == lines_outside_block(l4, true));
    assert(l2[0] == ms && l2.drop_first() == l3);
    assert(lines_outside_block(l2, false) == lines_outside_block(l3, true));
    assert(ls[0] == sh_line && ls.drop_first() == l2);
    assert(lines_outside_block(ls, false) == seq![sh_line] + lines_outside_block(l2, false));
    assert(lines_outside_block(ls, false) == seq![sh_line] + lb);
    // joining them again
    if body.len() == 0 {
        assert(lb.len() == 0);
        assert(seq![sh_line] + lb == seq![sh_line]);
        assert(join(seq![sh_line], nl) == sh_line);
        assert(body == Seq::<char>::empty());
        assert(sh_line + "\n"@ + body == sh_line + nl);
    } else {
        lemma_join_lines_roundtrip(body);
        lemma_lines_nonempty(body);
        lemma_join_cons(sh_line, lb, nl);
        let d = join(lb, nl);
        assert(d + nl == body);
        assert(d == body.drop_last());
        assert(d.len() > 0 && d.last() != '\n');
        let j = join(seq![sh_line] + lb, nl);
        assert(j == sh_line + nl + d);
        assert(j.last() == d.last());
        assert(j + nl == sh_line + nl + body);
    }
}

/// Uninstalling undoes installing: removing the gard block from what
/// installing writes into a hook gives back that hook (with a `#!/bin/sh`
/// line in front where it had no shebang), for any hook whose text after
/// the shebang is plain.
pub proof fn lemma_uninstall_undoes_install(e: Seq<char>)
    requires
        is_plain_body(hook_body(e)),
    ensures
        spec_remove_block(spec_inject(e, spec_gard_block())) == spec_inject(e, Seq::empty()),
{
    reveal_strlit("#!/bin/sh\n");
    reveal_strlit("#!/bin/bash\n");
    reveal_strlit("#!/usr/bin/env sh\n");
    reveal_strlit("#!/bin/sh");
    reveal_strlit("#!/bin/bash");
    reveal_strlit("#!/usr/bin/env sh");
    reveal_strlit("\n");
    let b = hook_body(e);
    let block = spec_gard_block();
    if starts_with(e, "#!/bin/sh\n"@) {
        assert("#!/bin/sh\n"@ == "#!/bin/sh"@ + "\n"@);
        lemma_remove_after_shebang("#!/bin/sh"@, b);
        assert(spec_inject(e, block) == "#!/bin/sh"@ + "\n"@ + block + b);
        assert(spec_inject(e, Seq::empty()) == "#!/bin/sh"@ + "\n"@ + b);
    } else if starts_with(e, "#!/bin/bash\n"@) {
        assert("#!/bin/bash\n"@ == "#!/bin/bash"@ + "\n"@);
        lemma_remove_after_shebang("#!/bin/bash"@, b);
        assert(spec_inject(e, block) == "#!/bin/bash"@ + "\n"@ + block + b);
        assert(spec_inject(e, Seq::empty()) == "#!/bin/bash"@ + "\n"@ + b);
    } else if starts_with(e, "#!/usr/bin/env sh\n"@) {
        assert("#!/usr/bin/env sh\n"@ == "#!/usr/bin/env sh"@ + "\n"@);
        lemma_remove_after_shebang("#!/usr/bin/env sh"@, b);
        assert(spec_inject(e, block) == "#!/usr/bin/env sh"@ + "\n"@ + block + b);
        assert(spec_inject(e, Seq::empty()) == "#!/usr/bin/env sh"@ + "\n"@ + b);
    } else {
        assert("#!/bin/sh\n"@ == "#!/bin/sh"@ + "\n"@);
        lemma_remove_after_shebang("#!/bin/sh"@, b);
        assert(spec_inject(e, block) == "#!/bin/sh"@ + "\n"@ + block + b);
        assert(spec_inject(e, Seq::empty()) == "#!/bin/sh"@ + "\n"@ + b);
    }
}

/// Installing twice is installing once: whatever installing writes already
/// holds the gard block, so a second install finds nothing to do.
pub proof fn lemma_install_idempotent(e: Seq<char>)
    ensures
        contains(spec_inject(e, spec_gard_block()), marker_start()),
        contains("#!/bin/sh\n"@ + spec_gard_block(), marker_start()),
{
    let block = spec_gard_block();
    let ms = marker_start();
    assert(block.subrange(0, ms.len() as int) == ms);
    let t = spec_inject(e, block);
    let sh: Seq<char> = if starts_with(e, "#!/bin/sh\n"@) {
        "#!/bin/sh\n"@
    } else if starts_with(e, "#!/bin/bash\n"@) {
        "#!/bin/bash\n"@
    } else if starts_with(e, "#!/usr/bin/env sh\n"@) {
        "#!/usr/bin/env sh\n"@
    } else {
        "#!/bin/sh\n"@
    };
    let rest = if starts_with(e, "#!/bin/sh\n"@) || starts_with(e, "#!/bin/bash\n"@) || starts_with(
        e,
        "#!/usr/bin/env sh\n"@,
    ) {
        e.skip(sh.len() as int)
    } else {
        e
    };
    assert(t == sh + block + rest);
    assert(t.subrange(sh.len() as int, (sh.len() + ms.len()) as int) == ms);
    lemma_occurs_then_contains(t, ms, sh.len() as int);
    let c = "#!/bin/sh\n"@ + block;
    assert(c.subrange("#!/bin/sh\n"@.len() as int, ("#!/bin/sh\n"@.len() + ms.len()) as int) == ms);
    lemma_occurs_then_contains(c, ms, "#!/bin/sh\n"@.len() as int);
}

/// Whether `p` occurs in `s` at `k` and at no other index.
pub open spec fn occurs_only_at(s: Seq<char>, p: Seq<char>, k: int) -> bool {
    occurs_at(s, p, k) && forall|i: int| occurs_at(s, p, i) ==> i == k
}

/// The marker occurs exactly once in a shebang line, the gard block and a
/// text without the marker.
proof fn lemma_block_marker_once(sh: Seq<char>, rest: Seq<char>)
    requires
        sh == "#!/bin/sh\n"@ || sh == "#!/bin/bash\n"@ || sh == "#!/usr/bin/env sh\n"@,
        forall|j: int| !occurs_at(rest, marker_start(), j),
    ensures
        occurs_only_at(sh + spec_gard_block() + rest, marker_start(), sh.len() as int),
{
    reveal_strlit("#!/bin/sh\n");
    reveal_strlit("#!/bin/bash\n");
    reveal_strlit("#!/usr/bin/env sh\n");
    reveal_strlit("\n");
    reveal_strlit("# --- gard (auto-injected) ---");
    reveal_strlit("# --- end gard ---");
    reveal_strlit("gard scan --packages --quiet\nif [ $? -ne 0 ]; then exit 1; fi");
    let ms = marker_start();
    let me = marker_end();
    let snip = GARD_SNIPPET@;
    let nl = "\n"@;
    let block = spec_gard_block();
    let t = sh + block + rest;
    let a = sh.len() as int;
    let b = block.len() as int;
    let m0: int = (ms.len() + 1 + snip.len() + 1) as int;
    assert(ms.len() == 30);
    assert(me.len() == 18);
    assert(forall|k: int| 1 <= k < ms.len() ==> ms[k] != '#');
    assert(forall|k: int| 0 <= k < snip.len() ==> snip[k] != '#');
    assert(forall|k: int| 1 <= k < me.len() ==> me[k] != '#');
    assert(forall|k: int| 1 <= k < sh.len() ==> sh[k] != '#');
    assert(sh[0] == '#' && sh[1] == '!');
    assert(block == ms + nl + snip + nl + me + nl);
    assert(b == m0 + me.len() + 1);
    assert forall|j: int| 0 <= j < b && block[j] == '#' implies j == 0 || j == m0 by {
        if j < ms.len() {
            assert(block[j] == ms[j]);
        } else if j == ms.len() {
            assert(block[j] == '\n');
        } else if j < ms.len() + 1 + snip.len() {
            assert(block[j] == snip[j - ms.len() - 1]);
        } else if j == ms.len() + 1 + snip.len() {
            assert(block[j] == '\n');
        } else if j < m0 + me.len() {
            assert(block[j] == me[j - m0]);
        } else {
            assert(block[j] == '\n');
        }
    }
    assert(block[m0 + 6] == me[6]);
    assert(me[6] == 'e' && ms[6] == 'g' && ms[0] == '#' && ms[1] == ' ');
    assert(t.subrange(a, a + ms.len()) =~= ms) by {
        assert forall|k: int| 0 <= k < ms.len() implies t.subrange(a, a + ms.len())[k] == ms[k] by {
            assert(t[a + k] == block[k]);
            assert(block[k] == ms[k]);
        }
    }
    assert forall|i: int| occurs_at(t, ms, i) implies i == a by {
        let w = t.subrange(i, i + ms.len());
        assert(w == ms);
        assert(w[0] == t[i]);
        assert(w[1] == t[i + 1]);
        assert(t[i] == '#');
        if i < a {
            if i == 0 {
                assert(t[1] == sh[1]);
                assert(false);
            } else {
                assert(t[i] == sh[i]);
                assert(false);
            }
        } else if i < a + b {
            assert(t[i] == block[i - a]);
            if i != a {
                assert(i - a == m0);
                assert(w[6] == t[i + 6]);
                assert(t[i + 6] == block[m0 + 6]);
                assert(false);
            }
        } else {
            let j = i - a - b;
            assert(rest.subrange(j, j + ms.len()) =~= w) by {
                assert forall|k: int| 0 <= k < ms.len() implies rest.subrange(j, j + ms.len())[k]
                    == w[k] by {
                    assert(t[i + k] == rest[j + k]);
                }
            }
            assert(occurs_at(rest, ms, j));
            assert(false);
        }
    }
}

/// Installing into a hook that does not hold the gard marker leaves the
/// marker in it exactly once, right after the shebang line; a new hook holds
/// it exactly once too. A second install then finds the marker and leaves
/// the hook as it is (`plan_install`).
pub proof fn lemma_install_marks_once(e: Seq<char>)
    requires
        !contains(e, marker_start()),
    ensures
        exists|k: int| occurs_only_at(spec_inject(e, spec_gard_block()), marker_start(), k),
        occurs_only_at(
            "#!/bin/sh\n"@ + spec_gard_block(),
            marker_start(),
            "#!/bin/sh\n"@.len() as int,
        ),
{
    let ms = marker_start();
    lemma_find_from_props(e, ms, 0);
    assert(forall|j: int| 0 <= j ==> !occurs_at(e, ms, j));
    let block = spec_gard_block();
    let sh: Seq<char> = if starts_with(e, "#!/bin/sh\n"@) {
        "#!/bin/sh\n"@
    } else if starts_with(e, "#!/bin/bash\n"@) {
        "#!/bin/bash\n"@
    } else if starts_with(e, "#!/usr/bin/env sh\n"@) {
        "#!/usr/bin/env sh\n"@
    } else {
        "#!/bin/sh\n"@
    };
    let shebang = starts_with(e, "#!/bin/sh\n"@) || starts_with(e, "#!/bin/bash\n"@) || starts_with(
        e,
        "#!/usr/bin/env sh\n"@,
    );
    let rest = if shebang {
        e.skip(sh.len() as int)
    } else {
        e
    };
    assert(spec_inject(e, block) == sh + block + rest);
    assert forall|j: int| !occurs_at(rest, ms, j) by {
        if occurs_at(rest, ms, j) && shebang {
            let k = j + sh.len();
            assert(e.subrange(k, k + ms.len()) =~= rest.subrange(j, j + ms.len()));
            assert(occurs_at(e, ms, k));
        }
    }
    lemma_block_marker_once(sh, rest);
    let empty = Seq::<char>::empty();
    reveal_strlit("# --- gard (auto-injected) ---");
    assert forall|j: int| !occurs_at(empty, ms, j) by {}
    lemma_block_marker_once("#!/bin/sh\n"@, empty);
    assert("#!/bin/sh\n"@ + block + empty == "#!/bin/sh\n"@ + block);
}

} // verus!
