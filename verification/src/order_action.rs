//! An earlier, free-standing catalog of order actions, kept for callers that
//! still use it; `ActionKind` is its successor inside the order module.

use vstd::prelude::*;

use crate::strutil::str_eq;

verus! {

#[derive(Clone, Copy, Debug, PartialEq, Eq, Structural)]
pub enum OrderAction {
    /// Show this order in the list of all orders
    Publish,
    /// Don't need to deliver it any more
    Cancel,
    /// Agree to deliver it
    AssignToMe,
    /// Refuse to deliver it
    Unassign,
    /// As assignee we say that we've delivered it
    MarkAsDelivered,
    /// As the owner we confirm that it's delivered
    ConfirmDelivery,
    /// Delete it completely
    Delete,
}

pub open spec fn spec_order_action_id(k: OrderAction) -> Seq<char> {
    match k {
        OrderAction::Publish => "publish"@,
        OrderAction::Cancel => "cancel"@,
        OrderAction::AssignToMe => "assign_to_me"@,
        OrderAction::Unassign => "unassign"@,
        OrderAction::MarkAsDelivered => "mark_as_delivered"@,
        OrderAction::ConfirmDelivery => "confirm_delivery"@,
        OrderAction::Delete => "delete"@,
    }
}

pub open spec fn spec_order_action_human_name(k: OrderAction) -> Seq<char> {
    match k {
        OrderAction::Publish => "Publish this order"@,
        OrderAction::Cancel => "Cancel this order"@,
        OrderAction::AssignToMe => "Take this order"@,
        OrderAction::Unassign => "Unassign this order"@,
        OrderAction::MarkAsDelivered => "Mark as delivered"@,
        OrderAction::ConfirmDelivery => "Confirm that I've received the items"@,
        OrderAction::Delete => "Delete this order"@,
    }
}

/// The inverse of `spec_order_action_id`.
pub open spec fn spec_order_action_from_id(s: Seq<char>) -> Option<OrderAction> {
    if s == spec_order_action_id(OrderAction::Publish) {
        Some(OrderAction::Publish)
    } else if s == spec_order_action_id(OrderAction::Cancel) {
        Some(OrderAction::Cancel)
    } else if s == spec_order_action_id(OrderAction::AssignToMe) {
        Some(OrderAction::AssignToMe)
    } else if s == spec_order_action_id(OrderAction::Unassign) {
        Some(OrderAction::Unassign)
    } else if s == spec_order_action_id(OrderAction::MarkAsDelivered) {
        Some(OrderAction::MarkAsDelivered)
    } else if s == spec_order_action_id(OrderAction::ConfirmDelivery) {
        Some(OrderAction::ConfirmDelivery)
    } else if s == spec_order_action_id(OrderAction::Delete) {
        Some(OrderAction::Delete)
    } else {
        None
    }
}

impl OrderAction {
    pub fn human_name(&self) -> (r: &'static str)
        ensures
            r@ == spec_order_action_human_name(*self),
    {
        match self {
            OrderAction::Publish => "Publish this order",
            OrderAction::Cancel => "Cancel this order",
            OrderAction::AssignToMe => "Take this order",
            OrderAction::Unassign => "Unassign this order",
            OrderAction::MarkAsDelivered => "Mark as delivered",
            OrderAction::ConfirmDelivery => "Confirm that I've received the items",
            OrderAction::Delete => "Delete this order",
        }
    }

    pub fn id(&self) -> (r: &'static str)
        ensures
            r@ == spec_order_action_id(*self),
    {
        match self {
            OrderAction::Publish => "publish",
            OrderAction::Cancel => "cancel",
            OrderAction::AssignToMe => "assign_to_me",
            OrderAction::Unassign => "unassign",
            OrderAction::MarkAsDelivered => "mark_as_delivered",
            OrderAction::ConfirmDelivery => "confirm_delivery",
            OrderAction::Delete => "delete",
        }
    }

    /// Converts a short id back to an `OrderAction`; `None` if it matches
    /// no variant id.
    pub fn maybe_from_id(s: &str) -> (r: Option<OrderAction>)
        ensures
            r == spec_order_action_from_id(s@),
    {
        if str_eq(s, "publish") {
            Some(OrderAction::Publish)
        } else if str_eq(s, "cancel") {
            Some(OrderAction::Cancel)
        } else if str_eq(s, "assign_to_me") {
            Some(OrderAction::AssignToMe)
        } else if str_eq(s, "unassign") {
            Some(OrderAction::Unassign)
        } else if str_eq(s, "mark_as_delivered") {
            Some(OrderAction::MarkAsDelivered)
        } else if str_eq(s, "confirm_delivery") {
            Some(OrderAction::ConfirmDelivery)
        } else if str_eq(s, "delete") {
            Some(OrderAction::Delete)
        } else {
            None
        }
    }
}

} // verus!
