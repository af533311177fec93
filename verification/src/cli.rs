//! Decisions of the command line that do not need the file system:
//! package specs, the allowlist filter and CI workflow locations.

use vstd::prelude::*;
use crate::config::Config;
use crate::manifest_diff::{pkg_view, pkg_views, PackageView};
use crate::text::{chars_of, find, find_exec, slice_chars, string_from_chars};
use crate::types::{Ecosystem, Package};

verus! {

broadcast use vstd::string::group_string_axioms;

/// A CI service whose workflow `gard init` writes.
#[derive(Debug, Clone, Copy, PartialEq, Eq, Structural)]
pub enum CiProvider {
    GitHubActions,
    GitLabCI,
    Bitbucket,
    Jenkins,
    Unknown,
}

/// Where the workflow file of a CI service goes, relative to the
/// repository root.
pub fn ci_workflow_path(ci: &CiProvider) -> (r: Option<&'static str>)
    ensures
        match *ci {
            CiProvider::GitHubActions => r matches Some(p) && p@ == ".github/workflows/gard.yml"@,
            CiProvider::GitLabCI => r matches Some(p) && p@ == ".gitlab-ci.yml"@,
            CiProvider::Bitbucket => r matches Some(p) && p@ == "bitbucket-pipelines.yml"@,
            CiProvider::Jenkins => r matches Some(p) && p@ == "Jenkinsfile.gard"@,
            CiProvider::Unknown => r is None,
        },
{
    match ci {
        CiProvider::GitHubActions => Some(".github/workflows/gard.yml"),
        CiProvider::GitLabCI => Some(".gitlab-ci.yml"),
        CiProvider::Bitbucket => Some("bitbucket-pipelines.yml"),
        CiProvider::Jenkins => Some("Jenkinsfile.gard"),
        CiProvider::Unknown => None,
    }
}

/// Name, version and ecosystem that a package spec names: `name@version`
/// (an `@` after the first character) is npm, `name==version` is PyPI;
/// a bare name is at version `"latest"` in PyPI where `requirements.txt`
/// exists, else in Cargo where `Cargo.toml` exists, else in npm.
pub open spec fn spec_package_spec(s: Seq<char>, requirements_txt: bool, cargo_toml: bool) -> (
    Seq<char>,
    Seq<char>,
    Ecosystem,
) {
    match find(s.skip(1), "@"@) {
        Some(p) => (s.take(p + 1), s.skip(p + 2), Ecosystem::Npm),
        None => match find(s, "=="@) {
            Some(p) => (s.take(p), s.skip(p + 2), Ecosystem::PyPI),
            None => (s, "latest"@, if requirements_txt {
                Ecosystem::PyPI
            } else if cargo_toml {
                Ecosystem::Cargo
            } else {
                Ecosystem::Npm
            }),
        },
    }
}

/// The package that a spec such as `lodash@4.17.21` or `requests==2.28.0`
/// names; `requirements_txt` and `cargo_toml` tell whether those files
/// exist in the working directory.
pub fn parse_package_spec(spec: &str, requirements_txt: bool, cargo_toml: bool) -> (r: (
    String,
    String,
    Ecosystem,
))
    requires
        spec@.len() > 0,
        (spec@[0] as u32) < 0x80,
    ensures
        (r.0@, r.1@, r.2) == spec_package_spec(spec@, requirements_txt, cargo_toml),
{
    let v = chars_of(spec);
    let n = v.len();
    let tail = slice_chars(&v, 1, n);
    let at = chars_of("@");
    let eqeq = chars_of("==");
    proof {
        reveal_strlit("@");
        reveal_strlit("==");
        assert(tail@ == v@.skip(1));
    }
    match find_exec(&tail, &at) {
        Some(p) => {
            let pos = p + 1;
            proof {
                assert(crate::text::occurs_at(tail@, at@, p as int));
            }
            let name = slice_chars(&v, 0, pos);
            let version = slice_chars(&v, pos + 1, n);
            proof {
                assert(v@.subrange(0, pos as int) == v@.take(pos as int));
                assert(v@.subrange(pos + 1, n as int) == v@.skip(pos + 1));
            }
            return (string_from_chars(&name), string_from_chars(&version), Ecosystem::Npm);
        },
        None => {},
    }
    match find_exec(&v, &eqeq) {
        Some(p) => {
            proof {
                assert(crate::text::occurs_at(v@, eqeq@, p as int));
            }
            let name = slice_chars(&v, 0, p);
            let version = slice_chars(&v, p + 2, n);
            proof {
                assert(v@.subrange(0, p as int) == v@.take(p as int));
                assert(v@.subrange(p + 2, n as int) == v@.skip(p + 2));
            }
            return (string_from_chars(&name), string_from_chars(&version), Ecosystem::PyPI);
        },
        None => {},
    }
    let eco = if requirements_txt {
        Ecosystem::PyPI
    } else if cargo_toml {
        Ecosystem::Cargo
    } else {
        Ecosystem::Npm
    };
    (spec.to_owned(), "latest".to_owned(), eco)
}

/// Whether `names` holds `n`.
pub open spec fn allowlisted(names: Seq<String>, n: Seq<char>) -> bool {
    exists|i: int| 0 <= i < names.len() && names[i]@ == n
}

/// The packages of `s` whose names are not allowlisted, in order.
pub open spec fn keep_not_allowed(names: Seq<String>, s: Seq<PackageView>) -> Seq<PackageView>
    decreases s.len(),
{
    if s.len() == 0 {
        Seq::empty()
    } else if allowlisted(names, s.last().0) {
        keep_not_allowed(names, s.drop_last())
    } else {
        keep_not_allowed(names, s.drop_last()).push(s.last())
    }
}

/// The packages that the allowlist does not exempt from scanning.
pub fn without_allowlisted(pkgs: &[Package], cfg: &Config) -> (r: Vec<Package>)
    ensures
        pkg_views(r@) == keep_not_allowed(cfg.allowlist.packages@, pkg_views(pkgs@)),
{
    let mut r: Vec<Package> = Vec::new();
    let n = pkgs.len();
    for i in 0..n
        invariant
            n == pkgs@.len(),
            pkg_views(r@) == keep_not_allowed(cfg.allowlist.packages@, pkg_views(pkgs@.take(i as int))),
    {
        proof {
            assert(pkg_views(pkgs@.take(i + 1)).drop_last() == pkg_views(pkgs@.take(i as int)));
            assert(pkg_views(pkgs@.take(i + 1)).last() == pkg_view(pkgs@[i as int]));
        }
        if !cfg.is_allowed(pkgs[i].name.as_str()) {
            let p = pkgs[i].clone();
            let ghost prev = r@;
            r.push(p);
            proof {
                assert(pkg_views(r@) == pkg_views(prev).push(pkg_view(p)));
            }
        }
    }
    proof {
        assert(pkgs@.take(n as int) == pkgs@);
    }
    r
}

/// A package is skipped exactly when some allowlist entry is its name: what
/// is kept is every listed package whose name no entry equals, and nothing
/// else.
pub proof fn lemma_allowlist_skips_exact_names(names: Seq<String>, s: Seq<PackageView>, x: PackageView)
    ensures
        keep_not_allowed(names, s).contains(x) <==> (s.contains(x) && forall|i: int|
            0 <= i < names.len() ==> #[trigger] names[i]@ != x.0),
    decreases s.len(),
{
    if s.len() > 0 {
        let d = s.drop_last();
        lemma_allowlist_skips_exact_names(names, d, x);
        assert(s == d.push(s.last()));
        assert(s.contains(x) <==> (d.contains(x) || s.last() == x)) by {
            if s.contains(x) {
                let j = choose|j: int| 0 <= j < s.len() && s[j] == x;
                if j < s.len() - 1 {
                    assert(d[j] == x);
                }
            }
            if d.contains(x) {
                let j = choose|j: int| 0 <= j < d.len() && d[j] == x;
                assert(s[j] == x);
            }
            if s.last() == x {
                assert(s[s.len() - 1] == x);
            }
        }
        let k = keep_not_allowed(names, d);
        if !allowlisted(names, s.last().0) {
            assert(keep_not_allowed(names, s) == k.push(s.last()));
            assert(k.push(s.last()).contains(x) <==> (k.contains(x) || s.last() == x)) by {
                let kp = k.push(s.last());
                if kp.contains(x) {
                    let j = choose|j: int| 0 <= j < kp.len() && kp[j] == x;
                    if j < k.len() {
                        assert(k[j] == x);
                    }
                }
                if k.contains(x) {
                    let j = choose|j: int| 0 <= j < k.len() && k[j] == x;
                    assert(kp[j] == x);
                }
                if s.last() == x {
                    assert(kp[kp.len() - 1] == x);
                }
            }
        } else {
            let i = choose|i: int| 0 <= i < names.len() && names[i]@ == s.last().0;
            if s.last() == x {
                assert(names[i]@ == x.0);
            }
        }
    }
}

} // verus!
