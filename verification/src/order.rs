//! The order aggregate: identity, content, timing and participant
//! references. Owns the transition logic and the authorization check.
//!
//! The lifecycle status is never stored: it is derived from which timestamp
//! fields are set, in fixed priority order, so it cannot desynchronize from
//! the evidence.

use vstd::prelude::*;

use crate::action::Action;
use crate::action_error::ActionError;
use crate::action_kind::ActionKind;
use crate::clock::now_timestamp;
use crate::ids::OrderId;
use crate::ids::Timestamp;
use crate::ids::UserId;
use crate::role::spec_allowed_actions;
use crate::role::Role;
use crate::status::Status;
use crate::user::User;
use crate::utils::dumb_intersection;
use crate::utils::spec_intersection;

verus! {

#[derive(Debug)]
pub struct Order {
    /// Id of this order, None if not persisted in the database
    pub id: Option<OrderId>,
    pub name: String,
    /// Free-text description of the order
    pub description_text: String,
    /// Roughly how much the item costs
    pub price_in_drams: u64,
    /// How much extra the customer is willing to pay for the delivery
    pub markup_in_drams: u64,
    /// When it was created (not published)
    pub created_at: Timestamp,
    /// When it was published
    pub published_at: Option<Timestamp>,
    /// Who created this order
    pub customer: User,
    /// When the assignee took it, their id, and their profile if we have it
    pub assigned: Option<(Timestamp, UserId, Option<User>)>,
    /// Who delivered it, their profile if we have it, and when
    pub delivered: Option<(UserId, Option<User>, Timestamp)>,
    /// When the delivery was confirmed, None if it's not
    pub delivery_confirmed_at: Option<Timestamp>,
    /// When it was canceled, if it was
    pub canceled_at: Option<Timestamp>,
}

/// The fixed per-status set of actions an order offers.
pub open spec fn spec_available_actions(s: Status) -> Seq<ActionKind> {
    match s {
        Status::Unpublished => seq![ActionKind::Publish, ActionKind::Delete],
        Status::Published => seq![ActionKind::AssignToMe, ActionKind::Cancel],
        Status::Assigned => seq![
            ActionKind::Unassign,
            ActionKind::MarkAsDelivered,
            ActionKind::ConfirmDelivery,
        ],
        Status::MarkedAsDelivered => seq![ActionKind::ConfirmDelivery],
        Status::DeliveryConfirmed => seq![ActionKind::Delete],
    }
}

/// The documented transition table: the status an order reaches when a
/// permitted (non-`Delete`) action is applied.
pub open spec fn spec_next_status(kind: ActionKind) -> Status {
    match kind {
        ActionKind::Publish => Status::Published,
        ActionKind::Cancel => Status::Unpublished,
        ActionKind::AssignToMe => Status::Assigned,
        ActionKind::Unassign => Status::Published,
        ActionKind::MarkAsDelivered => Status::MarkedAsDelivered,
        ActionKind::ConfirmDelivery => Status::DeliveryConfirmed,
        ActionKind::Delete => Status::Unpublished,
    }
}

impl Clone for Order {
    fn clone(&self) -> (r: Self)
        ensures
            r == *self,
    {
        Order {
            id: self.id,
            name: self.name.clone(),
            description_text: self.description_text.clone(),
            price_in_drams: self.price_in_drams,
            markup_in_drams: self.markup_in_drams,
            created_at: self.created_at,
            published_at: self.published_at,
            customer: self.customer.clone(),
            assigned: match &self.assigned {
                Some(t) => Some(
                    (
                        t.0,
                        t.1,
                        match &t.2 {
                            Some(u) => Some(u.clone()),
                            None => None,
                        },
                    ),
                ),
                None => None,
            },
            delivered: match &self.delivered {
                Some(t) => Some(
                    (
                        t.0,
                        match &t.1 {
                            Some(u) => Some(u.clone()),
                            None => None,
                        },
                        t.2,
                    ),
                ),
                None => None,
            },
            delivery_confirmed_at: self.delivery_confirmed_at,
            canceled_at: self.canceled_at,
        }
    }
}

impl Order {
    /// The derived lifecycle status, in fixed priority order:
    /// canceled > delivery-confirmed > delivered > assigned > published.
    pub open spec fn spec_status(self) -> Status {
        if self.canceled_at is Some {
            Status::Unpublished
        } else if self.delivery_confirmed_at is Some {
            Status::DeliveryConfirmed
        } else if self.delivered is Some {
            Status::MarkedAsDelivered
        } else if self.assigned is Some {
            Status::Assigned
        } else if self.published_at is Some {
            Status::Published
        } else {
            Status::Unpublished
        }
    }

    /// The current assignee, if any.
    pub open spec fn spec_assignee(self) -> Option<UserId> {
        match self.assigned {
            Some(a) => Some(a.1),
            None => None,
        }
    }

    /// A participant's relationship to this order, derived from the current
    /// owner and assignee fields, never cached.
    pub open spec fn spec_role(self, uid: UserId) -> Role {
        if self.customer.id == uid {
            Role::Owner
        } else if self.spec_assignee() == Some(uid) {
            Role::Assignee
        } else {
            Role::UnrelatedUser
        }
    }

    /// The single authorization primitive: an action is permitted exactly
    /// when the actor's role allows it and the order's status offers it.
    pub open spec fn spec_permitted(self, uid: UserId, kind: ActionKind) -> bool {
        spec_allowed_actions(self.spec_role(uid)).contains(kind) && spec_available_actions(
            self.spec_status(),
        ).contains(kind)
    }

    /// Evidence coherence of the lifecycle fields. It holds of a fresh
    /// (all-`None`) order and every permitted action preserves it; from it
    /// the documented transition table follows.
    pub open spec fn consistent(self) -> bool {
        &&& self.canceled_at is Some ==> self.assigned is None && self.delivered is None
            && self.delivery_confirmed_at is None
        &&& self.delivered is Some ==> self.assigned is Some
        &&& self.delivery_confirmed_at is Some ==> self.assigned is Some
        &&& self.assigned is Some ==> self.published_at is Some
    }

    /// The order after one (non-`Delete`) field mutation, with the mutation
    /// happening at time `now` on behalf of `user`.
    pub open spec fn spec_apply(self, user: User, kind: ActionKind, now: Timestamp) -> Order {
        match kind {
            ActionKind::Publish => Order {
                canceled_at: None,
                published_at: Some(now),
                ..self
            },
            ActionKind::Cancel => Order { canceled_at: Some(now), ..self },
            ActionKind::AssignToMe => Order {
                assigned: Some((now, user.id, Some(user))),
                ..self
            },
            ActionKind::Unassign => Order { assigned: None, ..self },
            ActionKind::MarkAsDelivered => Order {
                delivered: Some((user.id, None, now)),
                ..self
            },
            ActionKind::ConfirmDelivery => Order { delivery_confirmed_at: Some(now), ..self },
            ActionKind::Delete => self,
        }
    }

    /// Returns true if the order is assigned and not completed yet.
    pub fn is_active_assignment(&self) -> (r: bool)
        ensures
            r == (self.spec_status() == Status::Assigned || self.spec_status()
                == Status::MarkedAsDelivered),
    {
        match self.status() {
            Status::Assigned => true,
            Status::MarkedAsDelivered => true,
            _ => false,
        }
    }

    fn role(&self, uid: UserId) -> (r: Role)
        ensures
            r == self.spec_role(uid),
    {
        if self.customer.id == uid {
            return Role::Owner;
        }
        if let Some((_when, assignee_id, _user)) = &self.assigned {
            if *assignee_id == uid {
                return Role::Assignee;
            }
        }
        Role::UnrelatedUser
    }

    pub fn status(&self) -> (s: Status)
        ensures
            s == self.spec_status(),
    {
        if self.canceled_at.is_some() {
            return Status::Unpublished;
        }
        if self.delivery_confirmed_at.is_some() {
            return Status::DeliveryConfirmed;
        }
        if self.delivered.is_some() {
            return Status::MarkedAsDelivered;
        }
        if self.assigned.is_some() {
            return Status::Assigned;
        }
        if self.published_at.is_some() {
            return Status::Published;
        }
        Status::Unpublished
    }

    /// Actions that are available to the order in its current state.
    pub fn available_actions(&self) -> (r: Vec<ActionKind>)
        ensures
            r@ == spec_available_actions(self.spec_status()),
    {
        match self.status() {
            Status::Unpublished => {
                let r = vec![ActionKind::Publish, ActionKind::Delete];
                proof {
                    assert(r@ =~= spec_available_actions(self.spec_status()));
                }
                r
            },
            Status::Published => {
                let r = vec![ActionKind::AssignToMe, ActionKind::Cancel];
                proof {
                    assert(r@ =~= spec_available_actions(self.spec_status()));
                }
                r
            },
            Status::Assigned => {
                let r = vec![
                    ActionKind::Unassign,
                    ActionKind::MarkAsDelivered,
                    ActionKind::ConfirmDelivery,
                ];
                proof {
                    assert(r@ =~= spec_available_actions(self.spec_status()));
                }
                r
            },
            Status::MarkedAsDelivered => {
                let r = vec![ActionKind::ConfirmDelivery];
                proof {
                    assert(r@ =~= spec_available_actions(self.spec_status()));
                }
                r
            },
            Status::DeliveryConfirmed => {
                let r = vec![ActionKind::Delete];
                proof {
                    assert(r@ =~= spec_available_actions(self.spec_status()));
                }
                r
            },
        }
    }

    /// The actions `actor` may invoke on this order right now: the
    /// intersection of the role whitelist with the status's available set.
    pub fn user_actions(&self, actor: UserId) -> (r: Vec<ActionKind>)
        ensures
            r@ == spec_intersection(
                spec_allowed_actions(self.spec_role(actor)),
                spec_available_actions(self.spec_status()),
            ),
            forall|k: ActionKind| r@.contains(k) <==> self.spec_permitted(actor, k),
    {
        let role = self.role(actor);
        let available_actions = self.available_actions();
        let allowed_actions = role.allowed_actions();
        let r = dumb_intersection(allowed_actions.as_slice(), available_actions.as_slice());
        proof {
            crate::utils::lemma_intersection_contains(
                spec_allowed_actions(self.spec_role(actor)),
                spec_available_actions(self.spec_status()),
            );
        }
        r
    }

    /// The actions an unrelated participant may invoke on this order.
    pub fn public_actions(&self) -> (r: Vec<ActionKind>)
        ensures
            r@ == spec_intersection(
                spec_allowed_actions(Role::UnrelatedUser),
                spec_available_actions(self.spec_status()),
            ),
    {
        let available_actions = self.available_actions();
        let allowed_actions = Role::UnrelatedUser.allowed_actions();
        dumb_intersection(allowed_actions.as_slice(), available_actions.as_slice())
    }

    pub fn is_action_permitted(&self, uid: UserId, action: &Action) -> (r: bool)
        ensures
            r == self.spec_permitted(uid, action.kind),
    {
        let allowed = self.user_actions(uid);
        let mut i: usize = 0;
        while i < allowed.len()
            invariant
                i <= allowed.len(),
                forall|j: int| 0 <= j < i ==> allowed@[j] != action.kind,
                forall|k: ActionKind| allowed@.contains(k) <==> self.spec_permitted(uid, k),
            decreases allowed.len() - i,
        {
            if allowed[i] == action.kind {
                assert(allowed@.contains(action.kind));
                return true;
            }
            i += 1;
        }
        proof {
            if self.spec_permitted(uid, action.kind) {
                let j = choose|j: int|
                    0 <= j < allowed@.len() && allowed@[j] == action.kind;
            }
        }
        false
    }

    /// Performs `action` at time `now` and returns the status the order had
    /// before the mutation, so callers can diff old against new status.
    ///
    /// An action outside the permitted set fails with `NotPermitted` and
    /// leaves the order untouched. `Delete` must never reach this function:
    /// deletion is a store-level structural removal, not a field mutation.
    pub fn perform_action_at(&mut self, user: User, action: &Action, now: Timestamp) -> (r: Result<
        Status,
        ActionError,
    >)
        requires
            action.kind != ActionKind::Delete,
        ensures
            !old(self).spec_permitted(user.id, action.kind) ==> r == Err::<
                Status,
                ActionError,
            >(ActionError::NotPermitted) && *final(self) == *old(self),
            old(self).spec_permitted(user.id, action.kind) ==> r == Ok::<Status, ActionError>(
                old(self).spec_status(),
            ) && *final(self) == old(self).spec_apply(user, action.kind, now),
            old(self).consistent() ==> final(self).consistent(),
            old(self).consistent() && old(self).spec_permitted(user.id, action.kind)
                ==> final(self).spec_status() == spec_next_status(action.kind),
    {
        let uid = user.id;
        if !self.is_action_permitted(uid, action) {
            return Err(ActionError::NotPermitted);
        }
        let prev_status = self.status();
        match action.kind {
            ActionKind::Publish => {
                self.canceled_at = None;
                self.published_at = Some(now);
            },
            ActionKind::Cancel => {
                self.canceled_at = Some(now);
            },
            ActionKind::AssignToMe => {
                self.assigned = Some((now, uid, Some(user)));
            },
            ActionKind::Unassign => {
                self.assigned = None;
            },
            ActionKind::MarkAsDelivered => {
                self.delivered = Some((uid, None, now));
            },
            ActionKind::ConfirmDelivery => {
                self.delivery_confirmed_at = Some(now);
            },
            ActionKind::Delete => {
                proof {
                    assert(false);
                }
            },
        }
        Ok(prev_status)
    }

    /// Performs `action` now (wall clock) and returns the previous status.
    ///
    /// Note: must not be called with the `Delete` action, which is handled
    /// by the database instead.
    pub fn perform_action(&mut self, user: User, action: &Action) -> (r: Result<
        Status,
        ActionError,
    >)
        requires
            action.kind != ActionKind::Delete,
        ensures
            !old(self).spec_permitted(user.id, action.kind) ==> r == Err::<
                Status,
                ActionError,
            >(ActionError::NotPermitted) && *final(self) == *old(self),
            old(self).spec_permitted(user.id, action.kind) ==> r == Ok::<Status, ActionError>(
                old(self).spec_status(),
            ) && exists|t: Timestamp| *final(self) == old(self).spec_apply(user, action.kind, t),
            old(self).consistent() ==> final(self).consistent(),
            old(self).consistent() && old(self).spec_permitted(user.id, action.kind)
                ==> final(self).spec_status() == spec_next_status(action.kind),
    {
        let ghost u0 = user;
        let now = now_timestamp();
        let r = self.perform_action_at(user, action, now);
        proof {
            if old(self).spec_permitted(u0.id, action.kind) {
                assert(*self == old(self).spec_apply(u0, action.kind, now));
            }
        }
        r
    }
}

/// The permitted-action set is exactly the documented intersection of the
/// role whitelist with the status's available set: no role performs an
/// action outside its whitelist, and no status exposes an action outside its
/// available set.
pub proof fn lemma_permitted_is_intersection(o: Order, uid: UserId, k: ActionKind)
    ensures
        o.spec_permitted(uid, k) <==> (spec_allowed_actions(o.spec_role(uid)).contains(k)
            && spec_available_actions(o.spec_status()).contains(k)),
{
}

/// Claims are exclusive: once a claim of a published order has succeeded,
/// any further claim — by any participant — is no longer permitted, so of
/// two claims serialized by the store exactly one succeeds.
pub proof fn lemma_exclusive_claim(o: Order, u1: User, u2: UserId, t1: Timestamp)
    requires
        o.spec_permitted(u1.id, ActionKind::AssignToMe),
    ensures
        o.spec_apply(u1, ActionKind::AssignToMe, t1).spec_status() == Status::Assigned,
        !o.spec_apply(u1, ActionKind::AssignToMe, t1).spec_permitted(u2, ActionKind::AssignToMe),
{
    let o2 = o.spec_apply(u1, ActionKind::AssignToMe, t1);
    assert(spec_available_actions(o.spec_status()).contains(ActionKind::AssignToMe));
    assert(o.spec_status() == Status::Published) by {
        if o.spec_status() != Status::Published {
            lemma_available_no_assign(o.spec_status());
        }
    }
    assert(o2.spec_status() == Status::Assigned);
    assert(!spec_available_actions(Status::Assigned).contains(ActionKind::AssignToMe)) by {
        lemma_available_no_assign(Status::Assigned);
    }
}

/// `AssignToMe` is only ever available in the `Published` status.
proof fn lemma_available_no_assign(s: Status)
    requires
        s != Status::Published,
    ensures
        !spec_available_actions(s).contains(ActionKind::AssignToMe),
{
    let acts = spec_available_actions(s);
    if acts.contains(ActionKind::AssignToMe) {
        let i = choose|i: int| 0 <= i < acts.len() && acts[i] == ActionKind::AssignToMe;
    }
}

} // verus!
