//! A participant's relationship to a specific order, and the fixed whitelist
//! of actions each relationship may invoke.

use vstd::prelude::*;

use crate::action_kind::ActionKind;

verus! {

#[derive(Clone, Copy, Debug)]
pub enum Role {
    Owner,
    Assignee,
    UnrelatedUser,
}

/// The fixed per-role action whitelist.
pub open spec fn spec_allowed_actions(r: Role) -> Seq<ActionKind> {
    match r {
        Role::Owner => seq![
            ActionKind::Publish,
            ActionKind::Cancel,
            ActionKind::ConfirmDelivery,
            ActionKind::Delete,
        ],
        Role::Assignee => seq![ActionKind::Unassign, ActionKind::MarkAsDelivered],
        Role::UnrelatedUser => seq![ActionKind::AssignToMe],
    }
}

impl Role {
    pub fn allowed_actions(self) -> (r: Vec<ActionKind>)
        ensures
            r@ == spec_allowed_actions(self),
    {
        match self {
            Role::Owner => {
                let r = vec![
                    ActionKind::Publish,
                    ActionKind::Cancel,
                    ActionKind::ConfirmDelivery,
                    ActionKind::Delete,
                ];
                proof {
                    assert(r@ =~= spec_allowed_actions(self));
                }
                r
            },
            Role::Assignee => {
                let r = vec![ActionKind::Unassign, ActionKind::MarkAsDelivered];
                proof {
                    assert(r@ =~= spec_allowed_actions(self));
                }
                r
            },
            Role::UnrelatedUser => {
                let r = vec![ActionKind::AssignToMe];
                proof {
                    assert(r@ =~= spec_allowed_actions(self));
                }
                r
            },
        }
    }
}

} // verus!
