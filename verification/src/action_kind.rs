//! The catalog of state-transition requests an order understands, with the
//! stable short string id used by the callback-token wire format.

use vstd::prelude::*;

use crate::strutil::str_eq;

verus! {

#[derive(Clone, Copy, Debug, PartialEq, Eq, Structural)]
pub enum ActionKind {
    /// Show this order in the list of all orders
    Publish,
    /// Don't need to deliver it any more
    Cancel,
    /// Agree to deliver it
    AssignToMe,
    /// Refuse to deliver it
    Unassign,
    /// As assignee we say that we've delivered it
    MarkAsDelivered,
    /// As the owner we confirm that it's delivered
    ConfirmDelivery,
    /// Delete it completely
    Delete,
}

pub open spec fn spec_kind_id(k: ActionKind) -> Seq<char> {
    match k {
        ActionKind::Publish => "publish"@,
        ActionKind::Cancel => "cancel"@,
        ActionKind::AssignToMe => "assign_to_me"@,
        ActionKind::Unassign => "unassign"@,
        ActionKind::MarkAsDelivered => "mark_as_delivered"@,
        ActionKind::ConfirmDelivery => "confirm_delivery"@,
        ActionKind::Delete => "delete"@,
    }
}

pub open spec fn spec_kind_human_name(k: ActionKind) -> Seq<char> {
    match k {
        ActionKind::Publish => "Publish this order"@,
        ActionKind::Cancel => "Cancel this order"@,
        ActionKind::AssignToMe => "Take this order"@,
        ActionKind::Unassign => "Unassign this order"@,
        ActionKind::MarkAsDelivered => "Mark as delivered"@,
        ActionKind::ConfirmDelivery => "Confirm that I've received the items"@,
        ActionKind::Delete => "Delete this order"@,
    }
}

/// The inverse of `spec_kind_id`: which kind, if any, a short id names.
pub open spec fn spec_kind_from_id(s: Seq<char>) -> Option<ActionKind> {
    if s == spec_kind_id(ActionKind::Publish) {
        Some(ActionKind::Publish)
    } else if s == spec_kind_id(ActionKind::Cancel) {
        Some(ActionKind::Cancel)
    } else if s == spec_kind_id(ActionKind::AssignToMe) {
        Some(ActionKind::AssignToMe)
    } else if s == spec_kind_id(ActionKind::Unassign) {
        Some(ActionKind::Unassign)
    } else if s == spec_kind_id(ActionKind::MarkAsDelivered) {
        Some(ActionKind::MarkAsDelivered)
    } else if s == spec_kind_id(ActionKind::ConfirmDelivery) {
        Some(ActionKind::ConfirmDelivery)
    } else if s == spec_kind_id(ActionKind::Delete) {
        Some(ActionKind::Delete)
    } else {
        None
    }
}

impl ActionKind {
    pub fn human_name(&self) -> (r: &'static str)
        ensures
            r@ == spec_kind_human_name(*self),
    {
        match self {
            ActionKind::Publish => "Publish this order",
            ActionKind::Cancel => "Cancel this order",
            ActionKind::AssignToMe => "Take this order",
            ActionKind::Unassign => "Unassign this order",
            ActionKind::MarkAsDelivered => "Mark as delivered",
            ActionKind::ConfirmDelivery => "Confirm that I've received the items",
            ActionKind::Delete => "Delete this order",
        }
    }

    pub fn id(&self) -> (r: &'static str)
        ensures
            r@ == spec_kind_id(*self),
    {
        match self {
            ActionKind::Publish => "publish",
            ActionKind::Cancel => "cancel",
            ActionKind::AssignToMe => "assign_to_me",
            ActionKind::Unassign => "unassign",
            ActionKind::MarkAsDelivered => "mark_as_delivered",
            ActionKind::ConfirmDelivery => "confirm_delivery",
            ActionKind::Delete => "delete",
        }
    }

    /// Converts a short id back to an `ActionKind`; `None` if it matches
    /// no variant id.
    pub fn maybe_from_id(s: &str) -> (r: Option<ActionKind>)
        ensures
            r == spec_kind_from_id(s@),
    {
        if str_eq(s, "publish") {
            Some(ActionKind::Publish)
        } else if str_eq(s, "cancel") {
            Some(ActionKind::Cancel)
        } else if str_eq(s, "assign_to_me") {
            Some(ActionKind::AssignToMe)
        } else if str_eq(s, "unassign") {
            Some(ActionKind::Unassign)
        } else if str_eq(s, "mark_as_delivered") {
            Some(ActionKind::MarkAsDelivered)
        } else if str_eq(s, "confirm_delivery") {
            Some(ActionKind::ConfirmDelivery)
        } else if str_eq(s, "delete") {
            Some(ActionKind::Delete)
        } else {
            None
        }
    }
}

} // verus!
