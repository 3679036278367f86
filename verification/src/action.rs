//! An `ActionKind` aimed at a specific order, and the token wire format that
//! round-trips "which order, which action" through an opaque callback
//! channel: a space-joined `"oa <action-id> <order-id>"` string.

use vstd::prelude::*;
use vstd::string::StringExecFns;

use crate::action_kind::spec_kind_from_id;
use crate::action_kind::spec_kind_human_name;
use crate::action_kind::spec_kind_id;
use crate::action_kind::ActionKind;
use crate::ids::OrderId;
use crate::strutil::all_digits;
use crate::strutil::dec_digits;
use crate::strutil::is_digit;
use crate::strutil::lemma_dec_digits_val;
use crate::strutil::lemma_dec_digits_wf;
use crate::strutil::lemma_split_concat;
use crate::strutil::lemma_split_no_sep;
use crate::strutil::parse_u64;
use crate::strutil::push_dec_digits;
use crate::strutil::spec_parse_u64;
use crate::strutil::split_char;
use crate::strutil::split_on;
use crate::strutil::str_eq;

verus! {

/// ActionKind for a specific order
#[derive(Clone, Copy, Debug, PartialEq, Eq, Structural)]
pub struct Action {
    pub order_id: OrderId,
    pub kind: ActionKind,
}

/// The encoded callback token of an action: magic prefix, the action's short
/// id and the decimal order id, joined by single spaces.
pub open spec fn spec_token(a: Action) -> Seq<char> {
    "oa"@ + seq![' '] + spec_kind_id(a.kind) + seq![' '] + dec_digits(a.order_id.0 as nat)
}

/// What decoding accepts: exactly three space-separated fields — the magic
/// prefix, a known action id, and an in-range decimal order id. Anything
/// else decodes to `None`.
pub open spec fn spec_parse_token(s: Seq<char>) -> Option<Action> {
    let ts = split_char(s, ' ');
    if ts.len() != 3 || ts[0] != "oa"@ {
        None
    } else {
        match (spec_kind_from_id(ts[1]), spec_parse_u64(ts[2])) {
            (Some(k), Some(n)) => Some(Action { order_id: OrderId(n), kind: k }),
            _ => None,
        }
    }
}

impl Action {
    pub fn human_name(&self) -> (r: &'static str)
        ensures
            r@ == spec_kind_human_name(self.kind),
    {
        self.kind.human_name()
    }

    /// Serializes the action in a way that `try_parse` can parse back.
    pub fn kbd_button_data(&self) -> (r: String)
        ensures
            r@ == spec_token(*self),
    {
        let mut s = String::from_str("oa");
        s.append(" ");
        s.append(self.kind.id());
        s.append(" ");
        push_dec_digits(self.order_id.0, &mut s);
        proof {
            reveal_strlit(" ");
            assert(" "@ =~= seq![' ']);
            assert(s@ =~= spec_token(*self));
        }
        s
    }

    /// If `data` is a well-formed action token, returns the action it names;
    /// `None` for anything else (foreign callback data is ignored, not an
    /// error).
    pub fn try_parse(data: &str) -> (r: Option<Action>)
        ensures
            r == spec_parse_token(data@),
    {
        let ts = split_on(data, ' ');
        proof {
            assert(ts.deep_view().len() == ts@.len());
        }
        if ts.len() != 3 {
            return None;
        }
        proof {
            assert(ts.deep_view()[0] == ts@[0]@);
            assert(ts.deep_view()[1] == ts@[1]@);
            assert(ts.deep_view()[2] == ts@[2]@);
        }
        if !str_eq(ts[0].as_str(), "oa") {
            return None;
        }
        let kind = ActionKind::maybe_from_id(ts[1].as_str());
        if kind.is_none() {
            return None;
        }
        let order_id = parse_u64(ts[2].as_str());
        if order_id.is_none() {
            return None;
        }
        Some(Action { order_id: OrderId(order_id.unwrap()), kind: kind.unwrap() })
    }
}

/// No action id contains a space: each is a single token of the wire format.
proof fn lemma_kind_id_no_space(k: ActionKind)
    ensures
        !spec_kind_id(k).contains(' '),
        spec_kind_id(k).len() >= 1,
{
    reveal_strlit("publish");
    reveal_strlit("cancel");
    reveal_strlit("assign_to_me");
    reveal_strlit("unassign");
    reveal_strlit("mark_as_delivered");
    reveal_strlit("confirm_delivery");
    reveal_strlit("delete");
    let id = spec_kind_id(k);
    if id.contains(' ') {
        let i = choose|i: int| 0 <= i < id.len() && id[i] == ' ';
        assert(false);
    }
}

/// Decoding an id that `spec_kind_id` produced yields the kind back: the
/// seven short ids are pairwise distinct.
proof fn lemma_kind_id_round_trip(k: ActionKind)
    ensures
        spec_kind_from_id(spec_kind_id(k)) == Some(k),
{
    reveal_strlit("publish");
    reveal_strlit("cancel");
    reveal_strlit("assign_to_me");
    reveal_strlit("unassign");
    reveal_strlit("mark_as_delivered");
    reveal_strlit("confirm_delivery");
    reveal_strlit("delete");
    assert("publish"@.len() == 7);
    assert("cancel"@.len() == 6);
    assert("assign_to_me"@.len() == 12);
    assert("unassign"@.len() == 8);
    assert("mark_as_delivered"@.len() == 17);
    assert("confirm_delivery"@.len() == 16);
    assert("delete"@.len() == 6);
    assert("cancel"@[0] == 'c');
    assert("delete"@[0] == 'd');
    match k {
        ActionKind::Publish => {
            assert(spec_kind_from_id(spec_kind_id(k)) == Some(k));
        },
        ActionKind::Cancel => {
            assert(spec_kind_from_id(spec_kind_id(k)) == Some(k));
        },
        ActionKind::AssignToMe => {
            assert(spec_kind_from_id(spec_kind_id(k)) == Some(k));
        },
        ActionKind::Unassign => {
            assert(spec_kind_from_id(spec_kind_id(k)) == Some(k));
        },
        ActionKind::MarkAsDelivered => {
            assert(spec_kind_from_id(spec_kind_id(k)) == Some(k));
        },
        ActionKind::ConfirmDelivery => {
            assert(spec_kind_from_id(spec_kind_id(k)) == Some(k));
        },
        ActionKind::Delete => {
            assert(spec_kind_from_id(spec_kind_id(k)) == Some(k));
        },
    }
}

/// Token round-trip: encoding an action and decoding the result reproduces
/// the same order id and action kind, for every action kind and any
/// representable order id.
pub proof fn lemma_token_round_trip(a: Action)
    ensures
        spec_parse_token(spec_token(a)) == Some(a),
{
    reveal_strlit("oa");
    let id = spec_kind_id(a.kind);
    let digits = dec_digits(a.order_id.0 as nat);
    lemma_dec_digits_wf(a.order_id.0 as nat);
    lemma_dec_digits_val(a.order_id.0 as nat);
    lemma_kind_id_no_space(a.kind);
    lemma_kind_id_round_trip(a.kind);
    assert(!digits.contains(' ')) by {
        if digits.contains(' ') {
            let i = choose|i: int| 0 <= i < digits.len() && digits[i] == ' ';
            assert(is_digit(digits[i]));
        }
    }
    assert(!"oa"@.contains(' ')) by {
        if "oa"@.contains(' ') {
            let i = choose|i: int| 0 <= i < "oa"@.len() && "oa"@[i] == ' ';
            assert(false);
        }
    }
    let token = spec_token(a);
    let tail = id + seq![' '] + digits;
    assert(token =~= "oa"@ + seq![' '] + tail);
    lemma_split_concat("oa"@, tail, ' ');
    lemma_split_concat(id, digits, ' ');
    lemma_split_no_sep(digits, ' ');
    let ts = split_char(token, ' ');
    assert(ts =~~= seq!["oa"@, id, digits]);
    assert(ts.len() == 3);
    assert(ts[0] == "oa"@);
    assert(spec_kind_from_id(ts[1]) == Some(a.kind));
    assert(spec_parse_u64(ts[2]) == Some(a.order_id.0));
}

} // verus!
