//! The callback-token codec for urgency choices: `"urg <urgency-id>"`.

use vstd::prelude::*;
use vstd::string::StringExecFns;

use crate::strutil::split_char;
use crate::strutil::split_on;
use crate::strutil::str_eq;
use crate::urgency::spec_urgency_from_id;
use crate::urgency::spec_urgency_id;
use crate::urgency::Urgency;

verus! {

/// The encoded urgency token: the magic prefix and the urgency's short id,
/// joined by one space.
pub open spec fn spec_urgency_token(u: Urgency) -> Seq<char> {
    "urg"@ + seq![' '] + spec_urgency_id(u)
}

/// What decoding accepts: exactly two space-separated fields, the magic
/// prefix and a known urgency id.
pub open spec fn spec_urgency_from_token(s: Seq<char>) -> Option<Urgency> {
    let ts = split_char(s, ' ');
    if ts.len() != 2 || ts[0] != "urg"@ {
        None
    } else {
        spec_urgency_from_id(ts[1])
    }
}

/// Serializes an urgency choice in a way `from_id` can parse back.
pub fn id(u: &Urgency) -> (r: String)
    ensures
        r@ == spec_urgency_token(*u),
{
    let mut s = String::from_str("urg");
    s.append(" ");
    s.append(u.id());
    proof {
        reveal_strlit(" ");
        assert(" "@ =~= seq![' ']);
        assert(s@ =~= spec_urgency_token(*u));
    }
    s
}

/// If `data` is a well-formed urgency token, returns the urgency it names;
/// `None` for anything else.
pub fn from_id(u: &str) -> (r: Option<Urgency>)
    ensures
        r == spec_urgency_from_token(u@),
{
    let ts = split_on(u, ' ');
    proof {
        assert(ts.deep_view().len() == ts@.len());
    }
    if ts.len() != 2 {
        return None;
    }
    proof {
        assert(ts.deep_view()[0] == ts@[0]@);
        assert(ts.deep_view()[1] == ts@[1]@);
    }
    if !str_eq(ts[0].as_str(), "urg") {
        return None;
    }
    Urgency::from_id(ts[1].as_str())
}

} // verus!
