//! How soon an order should be delivered, with its stable short id.

use vstd::prelude::*;

use crate::strutil::str_eq;

verus! {

#[derive(Clone, Copy, Debug, PartialEq, Eq, Structural)]
pub enum Urgency {
    Today,
    ThisWeek,
    ThisMonth,
    Whenever,
}

pub open spec fn spec_urgency_id(u: Urgency) -> Seq<char> {
    match u {
        Urgency::Today => "today"@,
        Urgency::ThisWeek => "this_week"@,
        Urgency::ThisMonth => "this_month"@,
        Urgency::Whenever => "whenever"@,
    }
}

pub open spec fn spec_urgency_name(u: Urgency) -> Seq<char> {
    match u {
        Urgency::Today => "Today"@,
        Urgency::ThisWeek => "Some time this week"@,
        Urgency::ThisMonth => "Some time this month"@,
        Urgency::Whenever => "Some day"@,
    }
}

/// The inverse of `spec_urgency_id`.
pub open spec fn spec_urgency_from_id(s: Seq<char>) -> Option<Urgency> {
    if s == spec_urgency_id(Urgency::Today) {
        Some(Urgency::Today)
    } else if s == spec_urgency_id(Urgency::ThisWeek) {
        Some(Urgency::ThisWeek)
    } else if s == spec_urgency_id(Urgency::ThisMonth) {
        Some(Urgency::ThisMonth)
    } else if s == spec_urgency_id(Urgency::Whenever) {
        Some(Urgency::Whenever)
    } else {
        None
    }
}

impl Urgency {
    /// Every urgency, in display order.
    pub fn all() -> (r: Vec<Urgency>)
        ensures
            r@ == seq![Urgency::Today, Urgency::ThisWeek, Urgency::ThisMonth, Urgency::Whenever],
    {
        let r = vec![Urgency::Today, Urgency::ThisWeek, Urgency::ThisMonth, Urgency::Whenever];
        proof {
            assert(r@ =~= seq![
                Urgency::Today,
                Urgency::ThisWeek,
                Urgency::ThisMonth,
                Urgency::Whenever,
            ]);
        }
        r
    }

    pub fn id(self) -> (r: &'static str)
        ensures
            r@ == spec_urgency_id(self),
    {
        match self {
            Urgency::Today => "today",
            Urgency::ThisWeek => "this_week",
            Urgency::ThisMonth => "this_month",
            Urgency::Whenever => "whenever",
        }
    }

    pub fn name(self) -> (r: &'static str)
        ensures
            r@ == spec_urgency_name(self),
    {
        match self {
            Urgency::Today => "Today",
            Urgency::ThisWeek => "Some time this week",
            Urgency::ThisMonth => "Some time this month",
            Urgency::Whenever => "Some day",
        }
    }

    /// Converts a short id back to an `Urgency`; `None` if it matches no
    /// variant id.
    pub fn from_id(id: &str) -> (r: Option<Urgency>)
        ensures
            r == spec_urgency_from_id(id@),
    {
        if str_eq(id, "today") {
            Some(Urgency::Today)
        } else if str_eq(id, "this_week") {
            Some(Urgency::ThisWeek)
        } else if str_eq(id, "this_month") {
            Some(Urgency::ThisMonth)
        } else if str_eq(id, "whenever") {
            Some(Urgency::Whenever)
        } else {
            None
        }
    }
}

} // verus!
