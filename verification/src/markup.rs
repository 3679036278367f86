//! Text fragments for outward-facing messages: amounts, user names and
//! links, HTML escaping, and human-readable time distances.

use vstd::prelude::*;
use vstd::string::StrSliceExecFns;
use vstd::string::StringExecFns;

use crate::clock::now_timestamp;
use crate::ids::Timestamp;
use crate::ids::UserId;
use crate::strutil::dec_digits;
use crate::strutil::push_dec_digits;
use crate::strutil::u64_to_dec;
use crate::user::User;

verus! {

pub open spec fn spec_format_amd(amd: u64) -> Seq<char> {
    if amd == 0 {
        "No payments required"@
    } else {
        dec_digits(amd as nat) + " AMD"@
    }
}

/// An amount in Armenian drams, zero meaning "not applicable".
pub fn format_amd(amd: u64) -> (r: String)
    ensures
        r@ == spec_format_amd(amd),
{
    if amd == 0 {
        return String::from_str("No payments required");
    }
    let mut s = u64_to_dec(amd);
    s.append(" AMD");
    s
}

pub open spec fn spec_format_username(u: User) -> Seq<char> {
    let name = match u.last_name {
        Some(l) => u.first_name@ + " "@ + l@,
        None => u.first_name@,
    };
    match u.username {
        Some(un) => "@"@ + un@ + " "@ + name,
        None => name,
    }
}

/// A participant's display name: first and last name, prefixed with their
/// @-handle when they have one.
pub fn format_username(user: &User) -> (r: String)
    ensures
        r@ == spec_format_username(*user),
{
    let mut name = user.first_name.clone();
    if let Some(last) = &user.last_name {
        name.append(" ");
        name.append(last.as_str());
    }
    match &user.username {
        Some(un) => {
            let mut s = String::from_str("@");
            s.append(un.as_str());
            s.append(" ");
            s.append(name.as_str());
            proof {
                assert(s@ =~= spec_format_username(*user));
            }
            s
        },
        None => name,
    }
}

/// How one character is HTML-escaped: the five metacharacters become decimal
/// entities, everything else passes through.
pub open spec fn spec_escape_char(c: char) -> Seq<char> {
    if c == '"' {
        "&#34;"@
    } else if c == '&' {
        "&#38;"@
    } else if c == '\'' {
        "&#39;"@
    } else if c == '<' {
        "&#60;"@
    } else if c == '>' {
        "&#62;"@
    } else {
        seq![c]
    }
}

/// HTML-escaping of a text: each character replaced by its escape.
pub open spec fn spec_escape_html(s: Seq<char>) -> Seq<char> {
    s.map_values(|c: char| spec_escape_char(c)).flatten()
}

/// Relies on askama_escape::escape with the Html escaper: it replaces `"`,
/// `&`, `'`, `<` and `>` by their decimal entities (`&#34;` and so on) and
/// keeps every other character.
#[verifier::external_body]
pub fn escape_html(s: &str) -> (r: String)
    ensures
        r@ == spec_escape_html(s@),
{
    askama_escape::escape(s, askama_escape::Html).to_string()
}

pub open spec fn spec_link(url: Seq<char>, name: Seq<char>) -> Seq<char> {
    "<a href=\""@ + url + "\">"@ + spec_escape_html(name) + "</a>"@
}

/// An HTML link; the display name is escaped, the URL is taken as given.
pub fn link(url: &str, name: &str) -> (r: String)
    ensures
        r@ == spec_link(url@, name@),
{
    let escaped = escape_html(name);
    let mut s = String::from_str("<a href=\"");
    s.append(url);
    s.append("\">");
    s.append(escaped.as_str());
    s.append("</a>");
    proof {
        assert(s@ =~= spec_link(url@, name@));
    }
    s
}

pub open spec fn spec_user_url(uid: UserId) -> Seq<char> {
    "tg://user?id="@ + dec_digits(uid.0 as nat)
}

/// The deep link to a participant's private chat.
pub fn user_url(uid: UserId) -> (r: String)
    ensures
        r@ == spec_user_url(uid),
{
    let mut s = String::from_str("tg://user?id=");
    push_dec_digits(uid.0, &mut s);
    s
}

/// An HTML link to a participant, labelled with their display name.
pub fn user_link(user: &User) -> (r: String)
    ensures
        r@ == spec_link(spec_user_url(user.id), spec_format_username(*user)),
{
    let url = user_url(user.id);
    let name = format_username(user);
    link(url.as_str(), name.as_str())
}

pub open spec fn spec_pluralize(n: nat, what: Seq<char>) -> Seq<char> {
    if n == 1 {
        what
    } else {
        what + "s"@
    }
}

/// Give me a number and a word, I give you the plural word.
pub fn pluralize(n: u64, what: &str) -> (r: String)
    ensures
        r@ == spec_pluralize(n as nat, what@),
{
    if n == 1 {
        String::from_str(what)
    } else {
        let mut s = String::from_str(what);
        s.append("s");
        s
    }
}

/// A positive number of seconds, said in the largest whole unit: weeks,
/// days, hours, minutes, then coarser phrases.
pub open spec fn spec_human_positive_duration(secs: nat) -> Seq<char> {
    if secs / 604800 > 0 {
        dec_digits(secs / 604800) + " "@ + spec_pluralize(secs / 604800, "week"@)
    } else if secs / 86400 > 0 {
        dec_digits(secs / 86400) + " "@ + spec_pluralize(secs / 86400, "day"@)
    } else if secs / 3600 > 0 {
        dec_digits(secs / 3600) + " "@ + spec_pluralize(secs / 3600, "hour"@)
    } else if secs / 60 > 0 {
        dec_digits(secs / 60) + " "@ + spec_pluralize(secs / 60, "minute"@)
    } else if secs > 30 {
        "about a minute"@
    } else if secs > 0 {
        "few seconds"@
    } else {
        "just now"@
    }
}

pub fn human_positive_duration(secs: u64) -> (r: String)
    ensures
        r@ == spec_human_positive_duration(secs as nat),
{
    let weeks = secs / 604800;
    if weeks > 0 {
        let mut s = u64_to_dec(weeks);
        s.append(" ");
        let p = pluralize(weeks, "week");
        s.append(p.as_str());
        proof {
            assert(s@ =~= spec_human_positive_duration(secs as nat));
        }
        return s;
    }
    let days = secs / 86400;
    if days > 0 {
        let mut s = u64_to_dec(days);
        s.append(" ");
        let p = pluralize(days, "day");
        s.append(p.as_str());
        proof {
            assert(s@ =~= spec_human_positive_duration(secs as nat));
        }
        return s;
    }
    let hours = secs / 3600;
    if hours > 0 {
        let mut s = u64_to_dec(hours);
        s.append(" ");
        let p = pluralize(hours, "hour");
        s.append(p.as_str());
        proof {
            assert(s@ =~= spec_human_positive_duration(secs as nat));
        }
        return s;
    }
    let minutes = secs / 60;
    if minutes > 0 {
        let mut s = u64_to_dec(minutes);
        s.append(" ");
        let p = pluralize(minutes, "minute");
        s.append(p.as_str());
        proof {
            assert(s@ =~= spec_human_positive_duration(secs as nat));
        }
        return s;
    }
    if secs > 30 {
        return String::from_str("about a minute");
    }
    if secs > 0 {
        return String::from_str("few seconds");
    }
    String::from_str("just now")
}

/// The time distance between a moment and now, as a phrase.
pub open spec fn spec_time_ago(t: Timestamp, now: Timestamp) -> Seq<char> {
    if t == now {
        "right now"@
    } else if t > now {
        spec_human_positive_duration((t - now) as nat) + " from now"@
    } else {
        spec_human_positive_duration((now - t) as nat) + " ago"@
    }
}

/// How far the moment `t` lies from the moment `now`.
pub fn time_ago_at(t: Timestamp, now: Timestamp) -> (r: String)
    ensures
        r@ == spec_time_ago(t, now),
{
    if t == now {
        return String::from_str("right now");
    }
    if t > now {
        let d: i128 = (t as i128) - (now as i128);
        let a: u64 = d as u64;
        let mut s = human_positive_duration(a);
        s.append(" from now");
        proof {
            assert(s@ =~= spec_time_ago(t, now));
        }
        s
    } else {
        let d: i128 = (now as i128) - (t as i128);
        let a: u64 = d as u64;
        let mut s = human_positive_duration(a);
        s.append(" ago");
        proof {
            assert(s@ =~= spec_time_ago(t, now));
        }
        s
    }
}

/// How far the moment `t` lies from the wall clock's now.
pub fn time_ago(t: Timestamp) -> (r: String)
    ensures
        exists|now: Timestamp| r@ == spec_time_ago(t, now),
{
    let now = now_timestamp();
    let r = time_ago_at(t, now);
    proof {
        assert(r@ == spec_time_ago(t, now));
    }
    r
}

} // verus!
