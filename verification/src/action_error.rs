//! Errors an action request can fail with.

use vstd::prelude::*;
use vstd::string::StringExecFns;

use crate::ids::OrderId;

verus! {

#[derive(Clone, Copy, Debug, PartialEq, Eq, Structural)]
pub enum ActionError {
    /// Could not find the specified order
    OrderNotFound(OrderId),
    /// User is not allowed to perform that action
    NotPermitted,
    /// Some other technical error
    Other,
}

/// The user-facing explanation of an action error.
pub open spec fn spec_action_error_message(e: ActionError) -> Seq<char> {
    match e {
        ActionError::OrderNotFound(_) => "Could not find this order. \nEither you clicked on a stale message or it's a bug (oh noes!)"@,
        ActionError::NotPermitted => "You are not permitted to perform this action"@,
        ActionError::Other => "Some error occured"@,
    }
}

impl ActionError {
    pub fn message(&self) -> (r: String)
        ensures
            r@ == spec_action_error_message(*self),
    {
        match self {
            ActionError::OrderNotFound(_) => String::from_str(
                "Could not find this order. \nEither you clicked on a stale message or it's a bug (oh noes!)",
            ),
            ActionError::NotPermitted => String::from_str(
                "You are not permitted to perform this action",
            ),
            ActionError::Other => String::from_str("Some error occured"),
        }
    }
}

} // verus!
