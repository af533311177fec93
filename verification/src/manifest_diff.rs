//! Reading package lists out of lockfile contents and finding the packages
//! that have not been checked yet.

use vstd::prelude::*;
use crate::text::{
    chars_of, eq_str, find, occurs_at, find_exec, is_ws_char, push_str, slice_chars, split_lines,
    starts_with, starts_with_exec, string_from_chars, string_of_range, trim, trim_chars,
    trim_start, trim_start_index, lines, is_ws, trim_end,
};
use crate::types::{Ecosystem, Package};
use crate::manifest::Manifest;

verus! {

broadcast use vstd::string::group_string_axioms;

// ── Package views ───────────────────────────────────────────────────────────

/// A package as plain values: name, version, ecosystem.
pub type PackageView = (Seq<char>, Seq<char>, Ecosystem);

/// The plain values of `p`.
pub open spec fn pkg_view(p: Package) -> PackageView {
    (p.name@, p.version@, p.ecosystem)
}

/// The plain values of each package in `s`.
pub open spec fn pkg_views(s: Seq<Package>) -> Seq<PackageView> {
    s.map_values(|p: Package| pkg_view(p))
}

// ── Version specifiers ──────────────────────────────────────────────────────

/// The characters that open a version requirement: `^ ~ > < = !`.
pub open spec fn is_op_char(c: char) -> bool {
    c == '^' || c == '~' || c == '>' || c == '<' || c == '=' || c == '!'
}

/// `s` without its leading operator characters.
pub open spec fn skip_ops(s: Seq<char>) -> Seq<char>
    decreases s.len(),
{
    if s.len() > 0 && is_op_char(s[0]) {
        skip_ops(s.drop_first())
    } else {
        s
    }
}

/// The part of `s` before its first `','` or `' '`.
pub open spec fn before_sep(s: Seq<char>) -> Seq<char>
    decreases s.len(),
{
    if s.len() == 0 || s[0] == ',' || s[0] == ' ' {
        Seq::empty()
    } else {
        seq![s[0]] + before_sep(s.drop_first())
    }
}

/// The part of `s` before its first `','`.
pub open spec fn before_comma(s: Seq<char>) -> Seq<char>
    decreases s.len(),
{
    if s.len() == 0 || s[0] == ',' {
        Seq::empty()
    } else {
        seq![s[0]] + before_comma(s.drop_first())
    }
}

/// The base version of a version requirement: surrounding whitespace and the
/// leading operators removed, cut at the first `','` or `' '`; `"latest"`
/// where nothing or `"*"` is left.
pub open spec fn spec_normalize_version(spec: Seq<char>) -> Seq<char> {
    let v = trim(before_sep(skip_ops(trim(spec))));
    if v.len() == 0 || v == "*"@ {
        "latest"@
    } else {
        v
    }
}

fn is_op_char_exec(c: char) -> (r: bool)
    ensures
        r == is_op_char(c),
{
    c == '^' || c == '~' || c == '>' || c == '<' || c == '=' || c == '!'
}

/// The index where `v[lo..hi]` stops having leading operator characters.
fn skip_ops_index(v: &Vec<char>, lo: usize, hi: usize) -> (r: usize)
    requires
        lo <= hi <= v.len(),
    ensures
        lo <= r <= hi,
        v@.subrange(r as int, hi as int) == skip_ops(v@.subrange(lo as int, hi as int)),
{
    let mut i = lo;
    while i < hi && is_op_char_exec(v[i])
        invariant
            lo <= i <= hi <= v.len(),
            skip_ops(v@.subrange(lo as int, hi as int)) == skip_ops(
                v@.subrange(i as int, hi as int),
            ),
        decreases hi - i,
    {
        assert(v@.subrange(i as int, hi as int).drop_first() == v@.subrange(i + 1, hi as int));
        i += 1;
    }
    i
}

/// The index of the first `','` (and, with `space`, `' '`) in `v[lo..hi]`,
/// or `hi`.
fn sep_index(v: &Vec<char>, lo: usize, hi: usize, space: bool) -> (r: usize)
    requires
        lo <= hi <= v.len(),
    ensures
        lo <= r <= hi,
        space ==> v@.subrange(lo as int, r as int) == before_sep(v@.subrange(lo as int, hi as int)),
        !space ==> v@.subrange(lo as int, r as int) == before_comma(
            v@.subrange(lo as int, hi as int),
        ),
{
    let mut i = lo;
    while i < hi && v[i] != ',' && !(space && v[i] == ' ')
        invariant
            lo <= i <= hi <= v.len(),
            space ==> before_sep(v@.subrange(lo as int, hi as int)) == v@.subrange(
                lo as int,
                i as int,
            ) + before_sep(v@.subrange(i as int, hi as int)),
            !space ==> before_comma(v@.subrange(lo as int, hi as int)) == v@.subrange(
                lo as int,
                i as int,
            ) + before_comma(v@.subrange(i as int, hi as int)),
        decreases hi - i,
    {
        assert(v@.subrange(i as int, hi as int).drop_first() == v@.subrange(i + 1, hi as int));
        assert(v@.subrange(lo as int, i + 1) == v@.subrange(lo as int, i as int) + seq![
            v@[i as int],
        ]);
        i += 1;
    }
    proof {
        assert(v@.subrange(lo as int, i as int) + Seq::<char>::empty() == v@.subrange(
            lo as int,
            i as int,
        ));
    }
    i
}

/// The base version of a version requirement (`"^4.17.21"` gives
/// `"4.17.21"`, `"*"` gives `"latest"`).
pub fn normalize_version(spec: &str) -> (r: String)
    ensures
        r@ == spec_normalize_version(spec@),
        r@.len() > 0,
{
    let v = chars_of(spec);
    let n = v.len();
    let (a, b) = trim_range_of(&v, 0, n);
    let c = skip_ops_index(&v, a, b);
    let d = sep_index(&v, c, b, true);
    let (e, f) = trim_range_of(&v, c, d);
    let base = slice_chars(&v, e, f);
    proof {
        assert(v@.subrange(0, n as int) == v@);
    }
    if base.len() == 0 || eq_str(&base, "*") {
        proof {
            reveal_strlit("latest");
        }
        "latest".to_owned()
    } else {
        string_from_chars(&base)
    }
}

fn trim_range_of(v: &Vec<char>, lo: usize, hi: usize) -> (r: (usize, usize))
    requires
        lo <= hi <= v.len(),
    ensures
        lo <= r.0 <= r.1 <= hi,
        v@.subrange(r.0 as int, r.1 as int) == trim(v@.subrange(lo as int, hi as int)),
{
    crate::text::trim_range(v, lo, hi)
}

// ── npm ─────────────────────────────────────────────────────────────────────

/// The npm packages named by `dependencies` and `devDependencies` (name and
/// version requirement, in the order given), each at its base version.
pub fn parse_npm_packages(
    dependencies: &Vec<(String, String)>,
    dev_dependencies: &Vec<(String, String)>,
) -> (r: Vec<Package>)
    ensures
        r.len() == dependencies.len() + dev_dependencies.len(),
        forall|i: int|
            0 <= i < dependencies.len() ==> #[trigger] pkg_view(r[i]) == (
                dependencies[i].0@,
                spec_normalize_version(dependencies[i].1@),
                Ecosystem::Npm,
            ),
        forall|i: int|
            0 <= i < dev_dependencies.len() ==> #[trigger] pkg_view(r[dependencies.len() + i]) == (
                dev_dependencies[i].0@,
                spec_normalize_version(dev_dependencies[i].1@),
                Ecosystem::Npm,
            ),
{
    let mut r: Vec<Package> = Vec::new();
    let n = dependencies.len();
    for i in 0..n
        invariant
            n == dependencies.len(),
            r.len() == i,
            forall|k: int|
                0 <= k < i ==> #[trigger] pkg_view(r[k]) == (
                    dependencies[k].0@,
                    spec_normalize_version(dependencies[k].1@),
                    Ecosystem::Npm,
                ),
    {
        let version = normalize_version(dependencies[i].1.as_str());
        r.push(Package { name: dependencies[i].0.clone(), version, ecosystem: Ecosystem::Npm });
    }
    let m = dev_dependencies.len();
    for j in 0..m
        invariant
            n == dependencies.len(),
            m == dev_dependencies.len(),
            r.len() == n + j,
            forall|k: int|
                0 <= k < n ==> #[trigger] pkg_view(r[k]) == (
                    dependencies[k].0@,
                    spec_normalize_version(dependencies[k].1@),
                    Ecosystem::Npm,
                ),
            forall|k: int|
                0 <= k < j ==> #[trigger] pkg_view(r[n + k]) == (
                    dev_dependencies[k].0@,
                    spec_normalize_version(dev_dependencies[k].1@),
                    Ecosystem::Npm,
                ),
    {
        let version = normalize_version(dev_dependencies[j].1.as_str());
        r.push(
            Package { name: dev_dependencies[j].0.clone(), version, ecosystem: Ecosystem::Npm },
        );
        assert(pkg_view(r[n + j as int]) == (
            dev_dependencies[j as int].0@,
            spec_normalize_version(dev_dependencies[j as int].1@),
            Ecosystem::Npm,
        ));
    }
    r
}


// ── Normalizing twice ───────────────────────────────────────────────────────

/// Whether the only whitespace in `s` is the plain space.
pub open spec fn only_space_ws(s: Seq<char>) -> bool {
    forall|i: int| 0 <= i < s.len() ==> (is_ws(#[trigger] s[i]) ==> s[i] == ' ')
}

/// Whether `s` holds no whitespace at all.
pub open spec fn no_ws(s: Seq<char>) -> bool {
    forall|i: int| 0 <= i < s.len() ==> !is_ws(#[trigger] s[i])
}

proof fn lemma_trim_start_keeps(s: Seq<char>)
    requires
        only_space_ws(s),
    ensures
        only_space_ws(trim_start(s)),
    decreases s.len(),
{
    if s.len() > 0 && is_ws(s[0]) {
        assert(only_space_ws(s.drop_first())) by {
            assert forall|i: int| 0 <= i < s.drop_first().len() && is_ws(#[trigger] s.drop_first()[i]) implies s.drop_first()[i]
                == ' ' by {
                assert(s.drop_first()[i] == s[i + 1]);
            }
        }
        lemma_trim_start_keeps(s.drop_first());
    }
}

proof fn lemma_trim_end_keeps(s: Seq<char>)
    requires
        only_space_ws(s),
    ensures
        only_space_ws(trim_end(s)),
    decreases s.len(),
{
    if s.len() > 0 && is_ws(s.last()) {
        assert(only_space_ws(s.drop_last())) by {
            assert forall|i: int| 0 <= i < s.drop_last().len() && is_ws(#[trigger] s.drop_last()[i]) implies s.drop_last()[i]
                == ' ' by {
                assert(s.drop_last()[i] == s[i]);
            }
        }
        lemma_trim_end_keeps(s.drop_last());
    }
}

proof fn lemma_skip_ops_props(s: Seq<char>)
    requires
        only_space_ws(s),
    ensures
        only_space_ws(skip_ops(s)),
        skip_ops(s).len() == 0 || !is_op_char(skip_ops(s)[0]),
    decreases s.len(),
{
    if s.len() > 0 && is_op_char(s[0]) {
        assert(only_space_ws(s.drop_first())) by {
            assert forall|i: int| 0 <= i < s.drop_first().len() && is_ws(#[trigger] s.drop_first()[i]) implies s.drop_first()[i]
                == ' ' by {
                assert(s.drop_first()[i] == s[i + 1]);
            }
        }
        lemma_skip_ops_props(s.drop_first());
    }
}

proof fn lemma_before_sep_props(s: Seq<char>)
    requires
        only_space_ws(s),
    ensures
        no_ws(before_sep(s)),
        forall|i: int| 0 <= i < before_sep(s).len() ==> #[trigger] before_sep(s)[i] != ',',
        before_sep(s).len() > 0 ==> before_sep(s)[0] == s[0],
    decreases s.len(),
{
    if !(s.len() == 0 || s[0] == ',' || s[0] == ' ') {
        assert(only_space_ws(s.drop_first())) by {
            assert forall|i: int| 0 <= i < s.drop_first().len() && is_ws(#[trigger] s.drop_first()[i]) implies s.drop_first()[i]
                == ' ' by {
                assert(s.drop_first()[i] == s[i + 1]);
            }
        }
        lemma_before_sep_props(s.drop_first());
        let r = before_sep(s);
        let t = before_sep(s.drop_first());
        assert(r == seq![s[0]] + t);
        assert forall|i: int| 0 <= i < r.len() implies !is_ws(#[trigger] r[i]) && r[i] != ',' by {
            if i > 0 {
                assert(r[i] == t[i - 1]);
            }
        }
    }
}

proof fn lemma_before_sep_fixed(s: Seq<char>)
    requires
        no_ws(s),
        forall|i: int| 0 <= i < s.len() ==> #[trigger] s[i] != ',',
    ensures
        before_sep(s) == s,
    decreases s.len(),
{
    if s.len() > 0 {
        assert(s[0] != ' ' && s[0] != ',' && !is_ws(s[0]));
        let d = s.drop_first();
        assert forall|i: int| 0 <= i < d.len() implies !is_ws(#[trigger] d[i]) by {
            assert(d[i] == s[i + 1]);
        }
        assert forall|i: int| 0 <= i < d.len() implies #[trigger] d[i] != ',' by {
            assert(d[i] == s[i + 1]);
        }
        lemma_before_sep_fixed(d);
        assert(seq![s[0]] + d == s);
    }
}

/// A version that is already normalized (no whitespace or `','`, not
/// starting with an operator, not empty and not `"*"`) normalizes to itself.
proof fn lemma_normalized_is_fixed(v: Seq<char>)
    requires
        no_ws(v),
        forall|i: int| 0 <= i < v.len() ==> #[trigger] v[i] != ',',
        v.len() > 0,
        !is_op_char(v[0]),
        v != "*"@,
    ensures
        spec_normalize_version(v) == v,
{
    assert(trim_start(v) == v);
    assert(trim_end(v) == v);
    assert(skip_ops(v) == v);
    lemma_before_sep_fixed(v);
}

/// Normalizing a version twice gives what normalizing once gives, for any
/// requirement whose only whitespace is the plain space: an already
/// normalized version, `"latest"` among them, is left as it is.
pub proof fn lemma_normalize_version_idempotent(spec: Seq<char>)
    requires
        only_space_ws(spec),
    ensures
        spec_normalize_version(spec_normalize_version(spec)) == spec_normalize_version(spec),
{
    reveal_strlit("latest");
    reveal_strlit("*");
    let t = trim(spec);
    lemma_trim_start_keeps(spec);
    lemma_trim_end_keeps(trim_start(spec));
    let u = skip_ops(t);
    lemma_skip_ops_props(t);
    let w = before_sep(u);
    lemma_before_sep_props(u);
    assert(trim_start(w) == w);
    assert(trim_end(w) == w);
    assert(trim(w) == w);
    let v = spec_normalize_version(spec);
    if w.len() == 0 || w == "*"@ {
        let l = "latest"@;
        assert(v == l);
        assert(l.len() == 6);
        assert(no_ws(l)) by {
            assert forall|i: int| 0 <= i < l.len() implies !is_ws(#[trigger] l[i]) by {
                assert(l[i] == 'l' || l[i] == 'a' || l[i] == 't' || l[i] == 'e' || l[i] == 's');
            }
        }
        assert forall|i: int| 0 <= i < l.len() implies #[trigger] l[i] != ',' by {
            assert(l[i] == 'l' || l[i] == 'a' || l[i] == 't' || l[i] == 'e' || l[i] == 's');
        }
        assert(l != "*"@);
        lemma_normalized_is_fixed(l);
    } else {
        assert(v == w);
        assert(w[0] == u[0]);
        lemma_normalized_is_fixed(w);
    }
}

} // verus!

verus! {

// ── PyPI ────────────────────────────────────────────────────────────────────

/// Name and rest of a requirement line, split at the first `==`, else the
/// first `~=`, else the first `>=`, else the first `>`; `None` for the rest
/// where the line has none of them.
pub open spec fn split_requirement(l: Seq<char>) -> (Seq<char>, Option<Seq<char>>) {
    match find(l, "=="@) {
        Some(p) => (l.take(p), Some(l.skip(p + 2))),
        None => match find(l, "~="@) {
            Some(p) => (l.take(p), Some(l.skip(p + 2))),
            None => match find(l, ">="@) {
                Some(p) => (l.take(p), Some(l.skip(p + 2))),
                None => match find(l, ">"@) {
                    Some(p) => (l.take(p), Some(l.skip(p + 1))),
                    None => (l, None),
                },
            },
        },
    }
}

/// Name and version that a `requirements.txt` line names: `None` for an
/// option line (starting with `-`) or an empty name; the version is the
/// text after the operator up to the first `,`, trimmed, or `"latest"`.
pub open spec fn spec_requirement(line: Seq<char>) -> Option<(Seq<char>, Seq<char>)> {
    let l = trim(line);
    if starts_with(l, "-"@) {
        None
    } else {
        let (name, rest) = split_requirement(l);
        let version = match rest {
            Some(r) => trim(before_comma(r)),
            None => "latest"@,
        };
        if trim(name).len() == 0 {
            None
        } else {
            Some((trim(name), version))
        }
    }
}

/// Whether a line of `requirements.txt` is looked at: neither blank nor a
/// comment.
pub open spec fn is_requirement_candidate(l: Seq<char>) -> bool {
    trim(l).len() > 0 && !starts_with(trim_start(l), "#"@)
}

/// Name and version of each requirement among `ls`, in order.
pub open spec fn spec_requirements(ls: Seq<Seq<char>>) -> Seq<(Seq<char>, Seq<char>)>
    decreases ls.len(),
{
    if ls.len() == 0 {
        Seq::empty()
    } else {
        let rest = spec_requirements(ls.drop_last());
        let l = ls.last();
        if is_requirement_candidate(l) {
            match spec_requirement(l) {
                Some(nv) => rest.push(nv),
                None => rest,
            }
        } else {
            rest
        }
    }
}

/// Where `pat` first occurs in `t`, and where that occurrence ends.
fn find_pattern(t: &Vec<char>, pat: &str) -> (r: Option<(usize, usize)>)
    ensures
        r matches Some((p, e)) ==> find(t@, pat@) == Some(p as int) && e == p + pat@.len() && e
            <= t.len(),
        r is None ==> find(t@, pat@) is None,
{
    let pv = chars_of(pat);
    match find_exec(t, &pv) {
        Some(p) => {
            assert(occurs_at(t@, pv@, p as int));
            let tl = t.len();
            assert(p + pv@.len() <= tl);
            Some((p, p + pv.len()))
        },
        None => None,
    }
}

/// Position of the operator that ends the name, and where the version text
/// starts.
fn find_operator(t: &Vec<char>) -> (r: (usize, Option<usize>))
    ensures
        r.0 <= t.len(),
        r.1 matches Some(s) ==> r.0 < s <= t.len(),
        t@.take(r.0 as int) == split_requirement(t@).0,
        r.1 matches Some(s) ==> split_requirement(t@).1 == Some(t@.skip(s as int)),
        r.1 is None ==> split_requirement(t@).1 is None,
{
    proof {
        reveal_strlit("==");
        reveal_strlit("~=");
        reveal_strlit(">=");
        reveal_strlit(">");
    }
    match find_pattern(t, "==") {
        Some((p, e)) => (p, Some(e)),
        None => match find_pattern(t, "~=") {
            Some((p, e)) => (p, Some(e)),
            None => match find_pattern(t, ">=") {
                Some((p, e)) => (p, Some(e)),
                None => match find_pattern(t, ">") {
                    Some((p, e)) => (p, Some(e)),
                    None => {
                        assert(t@.take(t@.len() as int) == t@);
                        (t.len(), None)
                    },
                },
            },
        },
    }
}

/// The PyPI package that a `requirements.txt` line names, if any.
pub fn parse_requirement_line(line: &str) -> (r: Option<Package>)
    ensures
        r is Some <==> spec_requirement(line@) is Some,
        r matches Some(p) ==> pkg_view(p) == (
            spec_requirement(line@).unwrap().0,
            spec_requirement(line@).unwrap().1,
            Ecosystem::PyPI,
        ),
{
    let v = chars_of(line);
    let t = trim_chars(&v);
    let dash = chars_of("-");
    if starts_with_exec(&t, &dash) {
        return None;
    }
    let (name_end, rest_start) = find_operator(&t);
    let name_raw = slice_chars(&t, 0, name_end);
    let name = trim_chars(&name_raw);
    proof {
        assert(t@.subrange(0, name_end as int) == t@.take(name_end as int));
    }
    if name.len() == 0 {
        return None;
    }
    let version: Vec<char> = match rest_start {
        Some(s) => {
            let n = t.len();
            let d = sep_index(&t, s, n, false);
            let (e, f) = trim_range_of(&t, s, d);
            proof {
                assert(t@.subrange(s as int, n as int) == t@.skip(s as int));
            }
            slice_chars(&t, e, f)
        },
        None => chars_of("latest"),
    };
    Some(
        Package {
            name: string_from_chars(&name),
            version: string_from_chars(&version),
            ecosystem: Ecosystem::PyPI,
        },
    )
}

/// The PyPI packages that `requirements.txt` names, in order (blank lines,
/// comments and option lines skipped).
pub fn parse_pypi_packages(content: &str) -> (r: Vec<Package>)
    ensures
        r.len() == spec_requirements(lines(content@)).len(),
        forall|i: int|
            0 <= i < r.len() ==> #[trigger] pkg_view(r[i]) == (
                spec_requirements(lines(content@))[i].0,
                spec_requirements(lines(content@))[i].1,
                Ecosystem::PyPI,
            ),
{
    let v = chars_of(content);
    let ls = split_lines(&v);
    let ghost lv = ls.deep_view();
    let mut r: Vec<Package> = Vec::new();
    let n = ls.len();
    let hash = chars_of("#");
    for i in 0..n
        invariant
            n == ls.len(),
            lv == ls.deep_view(),
            hash@ == "#"@,
            r.len() == spec_requirements(lv.take(i as int)).len(),
            forall|k: int|
                0 <= k < r.len() ==> #[trigger] pkg_view(r[k]) == (
                    spec_requirements(lv.take(i as int))[k].0,
                    spec_requirements(lv.take(i as int))[k].1,
                    Ecosystem::PyPI,
                ),
    {
        let line = &ls[i];
        proof {
            assert(line@ == lv[i as int]);
            assert(lv.take(i + 1).drop_last() == lv.take(i as int));
            assert(lv.take(i + 1).last() == lv[i as int]);
        }
        let t = trim_chars(line);
        let k = trim_start_index(line, 0, line.len());
        let ts = slice_chars(line, k, line.len());
        proof {
            assert(line@.subrange(0, line@.len() as int) == line@);
        }
        if t.len() > 0 && !starts_with_exec(&ts, &hash) {
            let s = string_from_chars(line);
            match parse_requirement_line(s.as_str()) {
                Some(p) => {
                    r.push(p);
                },
                None => {},
            }
        }
    }
    proof {
        assert(lv.take(n as int) == lv);
    }
    r
}

} // verus!

verus! {

// ── Cargo ───────────────────────────────────────────────────────────────────

/// A dependency as `Cargo.toml` writes it: a bare version string, a table
/// (with its `version` key when that key holds a string), or anything else.
#[derive(Debug)]
pub enum CargoDependency {
    Version(String),
    Table { version: Option<String> },
    Other,
}

/// The base version of a `Cargo.toml` dependency, `"0.0.0"` where it names
/// none.
pub open spec fn spec_cargo_version(d: CargoDependency) -> Seq<char> {
    match d {
        CargoDependency::Version(s) => spec_normalize_version(s@),
        CargoDependency::Table { version: Some(s) } => spec_normalize_version(s@),
        _ => "0.0.0"@,
    }
}

/// The base version of a `Cargo.toml` dependency.
pub fn extract_cargo_version(val: &CargoDependency) -> (r: String)
    ensures
        r@ == spec_cargo_version(*val),
{
    match val {
        CargoDependency::Version(s) => normalize_version(s.as_str()),
        CargoDependency::Table { version: Some(s) } => normalize_version(s.as_str()),
        _ => "0.0.0".to_owned(),
    }
}

/// The Cargo packages of a repository: those of `Cargo.lock` (name and
/// version of each `[[package]]`) where there is one, else the
/// dependencies and dev-dependencies of `Cargo.toml` at their base versions.
pub fn parse_cargo_packages(
    lock: Option<&Vec<(String, String)>>,
    dependencies: &Vec<(String, CargoDependency)>,
) -> (r: Vec<Package>)
    ensures
        lock matches Some(l) ==> r.len() == l.len() && forall|i: int|
            0 <= i < l.len() ==> #[trigger] pkg_view(r[i]) == (l[i].0@, l[i].1@, Ecosystem::Cargo),
        lock is None ==> r.len() == dependencies.len() && forall|i: int|
            0 <= i < dependencies.len() ==> #[trigger] pkg_view(r[i]) == (
                dependencies[i].0@,
                spec_cargo_version(dependencies[i].1),
                Ecosystem::Cargo,
            ),
{
    let mut r: Vec<Package> = Vec::new();
    match lock {
        Some(l) => {
            let n = l.len();
            for i in 0..n
                invariant
                    n == l.len(),
                    r.len() == i,
                    forall|k: int|
                        0 <= k < i ==> #[trigger] pkg_view(r[k]) == (
                            l[k].0@,
                            l[k].1@,
                            Ecosystem::Cargo,
                        ),
            {
                r.push(
                    Package {
                        name: l[i].0.clone(),
                        version: l[i].1.clone(),
                        ecosystem: Ecosystem::Cargo,
                    },
                );
            }
        },
        None => {
            let n = dependencies.len();
            for i in 0..n
                invariant
                    n == dependencies.len(),
                    r.len() == i,
                    forall|k: int|
                        0 <= k < i ==> #[trigger] pkg_view(r[k]) == (
                            dependencies[k].0@,
                            spec_cargo_version(dependencies[k].1),
                            Ecosystem::Cargo,
                        ),
            {
                let version = extract_cargo_version(&dependencies[i].1);
                r.push(
                    Package {
                        name: dependencies[i].0.clone(),
                        version,
                        ecosystem: Ecosystem::Cargo,
                    },
                );
            }
        },
    }
    r
}

// ── Diffing ─────────────────────────────────────────────────────────────────

/// A package identity as the diff compares it: name and version.
pub type PackageId = (Seq<char>, Seq<char>);

/// The name-and-version pairs of `s`.
pub open spec fn package_ids(s: Seq<Package>) -> Set<PackageId> {
    Set::new(|id: PackageId| exists|j: int| 0 <= j < s.len() && s[j].name@ == id.0 && s[j].version@ == id.1)
}

/// The name-and-version pairs that a manifest records.
pub open spec fn manifest_ids(m: Manifest) -> Set<PackageId> {
    Set::new(
        |id: PackageId|
            exists|j: int|
                0 <= j < m.packages@.len() && m.packages@[j].name@ == id.0
                    && m.packages@[j].version@ == id.1,
    )
}

/// The packages of `s` whose name and version are not in `known`, in order.
pub open spec fn keep_unknown(known: Set<PackageId>, s: Seq<PackageView>) -> Seq<PackageView>
    decreases s.len(),
{
    if s.len() == 0 {
        Seq::empty()
    } else {
        let rest = keep_unknown(known, s.drop_last());
        let p = s.last();
        if known.contains((p.0, p.1)) {
            rest
        } else {
            rest.push(p)
        }
    }
}

fn is_listed(before: &[Package], p: &Package) -> (r: bool)
    ensures
        r == package_ids(before@).contains((p.name@, p.version@)),
{
    let n = before.len();
    for j in 0..n
        invariant
            n == before@.len(),
            forall|k: int|
                0 <= k < j ==> !(before@[k].name@ == p.name@ && before@[k].version@
                    == p.version@),
    {
        if before[j].name == p.name && before[j].version == p.version {
            return true;
        }
    }
    false
}

fn is_recorded(m: &Manifest, p: &Package) -> (r: bool)
    ensures
        r == manifest_ids(*m).contains((p.name@, p.version@)),
{
    let n = m.packages.len();
    for j in 0..n
        invariant
            n == m.packages@.len(),
            forall|k: int|
                0 <= k < j ==> !(m.packages@[k].name@ == p.name@ && m.packages@[k].version@
                    == p.version@),
    {
        if m.packages[j].name == p.name && m.packages[j].version == p.version {
            return true;
        }
    }
    false
}

/// The packages of `after` whose name and version are not in `before`, in
/// the order of `after`.
pub fn diff_packages(before: &[Package], after: &[Package]) -> (r: Vec<Package>)
    ensures
        pkg_views(r@) == keep_unknown(package_ids(before@), pkg_views(after@)),
{
    let mut r: Vec<Package> = Vec::new();
    let n = after.len();
    for i in 0..n
        invariant
            n == after@.len(),
            pkg_views(r@) == keep_unknown(package_ids(before@), pkg_views(after@.take(i as int))),
    {
        proof {
            assert(pkg_views(after@.take(i + 1)).drop_last() == pkg_views(after@.take(i as int)));
            assert(pkg_views(after@.take(i + 1)).last() == pkg_view(after@[i as int]));
        }
        if !is_listed(before, &after[i]) {
            let p = after[i].clone();
            let ghost prev = r@;
            r.push(p);
            proof {
                assert(pkg_views(r@) == pkg_views(prev).push(pkg_view(p)));
            }
        }
    }
    proof {
        assert(after@.take(n as int) == after@);
    }
    r
}

/// The packages of `current` that `manifest` has not recorded with the
/// same name and version, in the order of `current`.
pub fn find_new_packages(current: &[Package], manifest: &Manifest) -> (r: Vec<Package>)
    ensures
        pkg_views(r@) == keep_unknown(manifest_ids(*manifest), pkg_views(current@)),
{
    let mut r: Vec<Package> = Vec::new();
    let n = current.len();
    for i in 0..n
        invariant
            n == current@.len(),
            pkg_views(r@) == keep_unknown(manifest_ids(*manifest), pkg_views(current@.take(i as int))),
    {
        proof {
            assert(pkg_views(current@.take(i + 1)).drop_last() == pkg_views(current@.take(i as int)));
            assert(pkg_views(current@.take(i + 1)).last() == pkg_view(current@[i as int]));
        }
        if !is_recorded(manifest, &current[i]) {
            let p = current[i].clone();
            let ghost prev = r@;
            r.push(p);
            proof {
                assert(pkg_views(r@) == pkg_views(prev).push(pkg_view(p)));
            }
        }
    }
    proof {
        assert(current@.take(n as int) == current@);
    }
    r
}

} // verus!

verus! {

/// A package is reported as new exactly when it is among the current
/// packages and its name and version are not already known.
pub proof fn lemma_new_packages_exact(known: Set<PackageId>, s: Seq<PackageView>, p: PackageView)
    ensures
        keep_unknown(known, s).contains(p) <==> (s.contains(p) && !known.contains((p.0, p.1))),
    decreases s.len(),
{
    if s.len() > 0 {
        lemma_new_packages_exact(known, s.drop_last(), p);
        let rest = keep_unknown(known, s.drop_last());
        if s.drop_last().contains(p) {
            let j = choose|j: int| 0 <= j < s.drop_last().len() && s.drop_last()[j] == p;
            assert(s[j] == p);
        }
        if s.contains(p) && !s.drop_last().contains(p) {
            let j = choose|j: int| 0 <= j < s.len() && s[j] == p;
            if j < s.len() - 1 {
                assert(s.drop_last()[j] == p);
            }
            assert(s.last() == p);
        }
        if !known.contains((s.last().0, s.last().1)) {
            assert(rest.push(s.last()).last() == s.last());
            if rest.contains(p) {
                let j = choose|j: int| 0 <= j < rest.len() && rest[j] == p;
                assert(rest.push(s.last())[j] == p);
            }
            if rest.push(s.last()).contains(p) && p != s.last() {
                let j = choose|j: int| 0 <= j < rest.len() + 1 && rest.push(s.last())[j] == p;
                assert(rest[j] == p);
            }
        }
    }
}

/// Diffing a package list against itself finds nothing new.
pub proof fn lemma_diff_with_itself_is_empty(s: Seq<Package>)
    ensures
        keep_unknown(package_ids(s), pkg_views(s)).len() == 0,
{
    lemma_keep_unknown_all_known(package_ids(s), pkg_views(s));
}

proof fn lemma_keep_unknown_all_known(known: Set<PackageId>, s: Seq<PackageView>)
    requires
        forall|i: int| 0 <= i < s.len() ==> known.contains((#[trigger] s[i].0, s[i].1)),
    ensures
        keep_unknown(known, s).len() == 0,
    decreases s.len(),
{
    if s.len() > 0 {
        assert(known.contains((s[s.len() - 1].0, s[s.len() - 1].1)));
        lemma_keep_unknown_all_known(known, s.drop_last());
    }
}

/// Nothing that the manifest records with the same name and version is
/// reported again, and every other current package is.
pub proof fn lemma_find_new_packages_exact(current: Seq<Package>, manifest: Manifest, p: Package)
    requires
        current.contains(p),
    ensures
        keep_unknown(manifest_ids(manifest), pkg_views(current)).contains(pkg_view(p))
            <==> !manifest_ids(manifest).contains((p.name@, p.version@)),
{
    let j = choose|j: int| 0 <= j < current.len() && current[j] == p;
    assert(pkg_views(current)[j] == pkg_view(p));
    lemma_new_packages_exact(manifest_ids(manifest), pkg_views(current), pkg_view(p));
}

/// The packages not yet recorded: all of `current` where there is no
/// manifest yet, else those the manifest has not recorded.
pub fn detect_new_packages(manifest: Option<&Manifest>, current: &[Package]) -> (r: Vec<Package>)
    ensures
        manifest matches Some(m) ==> pkg_views(r@) == keep_unknown(
            manifest_ids(*m),
            pkg_views(current@),
        ),
        manifest is None ==> pkg_views(r@) == pkg_views(current@),
{
    match manifest {
        Some(m) => find_new_packages(current, m),
        None => {
            let empty = Manifest::new(None);
            let r = find_new_packages(current, &empty);
            proof {
                assert(manifest_ids(empty) == Set::<PackageId>::empty());
                lemma_keep_unknown_none_known(pkg_views(current@));
            }
            r
        },
    }
}

proof fn lemma_keep_unknown_none_known(s: Seq<PackageView>)
    ensures
        keep_unknown(Set::<PackageId>::empty(), s) == s,
    decreases s.len(),
{
    if s.len() > 0 {
        lemma_keep_unknown_none_known(s.drop_last());
        assert(s.drop_last().push(s.last()) == s);
    }
}

} // verus!
