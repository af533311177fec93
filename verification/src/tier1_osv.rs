//! Tier 1: the verdict on a package from the vulnerabilities that the OSV
//! database lists for it.

use vstd::prelude::*;
use crate::text::{decimal, join, push_chars, push_decimal, push_str, string_from_chars};
use crate::types::TierResult;

verus! {

broadcast use vstd::string::group_string_axioms;

/// The OSV endpoint that the query goes to.
pub const OSV_API: &'static str = "https://api.osv.dev/v1/query";

/// The identifiers of `ids` as text.
pub open spec fn id_views(ids: Seq<String>) -> Seq<Seq<char>> {
    ids.map_values(|s: String| s@)
}

/// The reason given for blocking: the number of vulnerabilities and the
/// first three identifiers, with `", …"` where more were found.
pub open spec fn vulnerability_reason(ids: Seq<String>) -> Seq<char> {
    let shown = if ids.len() > 3 { ids.take(3) } else { ids };
    decimal(ids.len()) + " known vulnerability(-ies) ["@ + join(id_views(shown), ", "@) + (if ids.len() > 3 {
        ", …"@
    } else {
        ""@
    }) + "]"@
}

/// The tier-1 result for the vulnerability identifiers that OSV returned:
/// `Pass` where there are none, else `Block`.
pub fn result_from_vulns(ids: &Vec<String>) -> (r: TierResult)
    ensures
        ids.len() == 0 ==> r == TierResult::Pass,
        ids.len() > 0 ==> (r matches TierResult::Block { reason } && reason@ == vulnerability_reason(
            ids@,
        )),
{
    let n = ids.len();
    if n == 0 {
        return TierResult::Pass;
    }
    let shown = if n > 3 {
        3
    } else {
        n
    };
    let ghost shown_ids = if n > 3 {
        ids@.take(3)
    } else {
        ids@
    };
    let mut body: Vec<char> = Vec::new();
    for i in 0..shown
        invariant
            shown <= n == ids.len(),
            shown == shown_ids.len(),
            shown_ids == ids@.take(shown as int),
            body@ == join(id_views(shown_ids.take(i as int)), ", "@),
    {
        proof {
            assert(id_views(shown_ids.take(i + 1)).drop_last() == id_views(shown_ids.take(i as int)));
            assert(id_views(shown_ids.take(i + 1)).last() == ids@[i as int]@);
        }
        if i > 0 {
            push_str(&mut body, ", ");
        }
        push_str(&mut body, ids[i].as_str());
        proof {
            if i == 0 {
                assert(id_views(shown_ids.take(1)).len() == 1);
                assert(Seq::<char>::empty() + ids@[0]@ == ids@[0]@);
            }
        }
    }
    proof {
        assert(shown_ids.take(shown as int) == shown_ids);
    }
    let mut out: Vec<char> = Vec::new();
    push_decimal(&mut out, n as u64);
    push_str(&mut out, " known vulnerability(-ies) [");
    push_chars(&mut out, &body);
    if n > 3 {
        push_str(&mut out, ", …");
    } else {
        push_str(&mut out, "");
    }
    push_str(&mut out, "]");
    proof {
        assert(Seq::<char>::empty() + decimal(n as nat) == decimal(n as nat));
    }
    TierResult::Block { reason: string_from_chars(&out) }
}

} // verus!
