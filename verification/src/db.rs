//! The store: the authoritative, concurrency-safe collection of venues,
//! participants and orders. Every operation here is one atomic unit; an
//! embedding makes the whole store one guarded region (one exclusive-writer
//! lock), so these sequential contracts are what concurrent callers observe.

use vstd::prelude::*;
use vstd::string::StringExecFns;

use crate::action::Action;
use crate::action_error::ActionError;
use crate::action_kind::ActionKind;
use crate::clock::now_timestamp;
use crate::ids::ChatId;
use crate::ids::MessageId;
use crate::ids::OrderId;
use crate::ids::Timestamp;
use crate::ids::UserId;
use crate::order::lemma_exclusive_claim;
use crate::order::spec_next_status;
use crate::order::Order;
use crate::public_chat::spec_add_members;
use crate::public_chat::spec_find_member;
use crate::public_chat::PublicChat;
use crate::status::Status;
use crate::user::User;

verus! {

/// Failure to resolve the single venue an ambiguous (private-channel)
/// interaction concerns.
#[derive(Clone, Copy, Debug, PartialEq, Eq, Structural)]
pub enum PubChatFromMsgError {
    /// We don't see the user in any public chats
    NotInPubChats,
    /// User is in multiple chats, so we need to ask which one they want
    MultipleChats,
    /// Other technical error, like we couldn't access the db or something
    Other,
}

pub open spec fn spec_pub_chat_error_message(e: PubChatFromMsgError) -> Seq<char> {
    match e {
        PubChatFromMsgError::NotInPubChats => "You are not in any public chat with this bot.\nTry writting '/hello' into the public chat you're in to make sure the bot knows you're there"@,
        PubChatFromMsgError::MultipleChats => "You are in multiple chats. This is not supported yet. Sorry!"@,
        PubChatFromMsgError::Other => "Some error occured"@,
    }
}

impl PubChatFromMsgError {
    pub fn message(&self) -> (r: String)
        ensures
            r@ == spec_pub_chat_error_message(*self),
    {
        match self {
            PubChatFromMsgError::NotInPubChats => String::from_str(
                "You are not in any public chat with this bot.\nTry writting '/hello' into the public chat you're in to make sure the bot knows you're there",
            ),
            PubChatFromMsgError::MultipleChats => String::from_str(
                "You are in multiple chats. This is not supported yet. Sorry!",
            ),
            PubChatFromMsgError::Other => String::from_str("Some error occured"),
        }
    }
}

/// Failure of a store operation on venues or users.
#[derive(Clone, Copy, Debug, PartialEq, Eq, Structural)]
pub enum DbError {
    /// The named venue is not known to the store
    ChatNotFound(ChatId),
    /// Venue metadata cannot be kept for a private chat
    PrivateChat(ChatId),
}

impl DbError {
    pub fn message(&self) -> (r: String)
        ensures
            self is ChatNotFound ==> r@ == "could not find public chat"@,
            self is PrivateChat ==> r@ == "chat is private, cannot update it"@,
    {
        match self {
            DbError::ChatNotFound(_) => String::from_str("could not find public chat"),
            DbError::PrivateChat(_) => String::from_str("chat is private, cannot update it"),
        }
    }
}

/// Whether a chat record names a public (venue) or a private chat.
#[derive(Clone, Copy, Debug, PartialEq, Eq, Structural)]
pub enum ChatKind {
    Public,
    Private,
}

/// The outward-facing messages that displayed one order, so they can be
/// retracted or refreshed later.
pub struct OrderMsgs {
    pub order_id: OrderId,
    pub locations: Vec<(ChatId, MessageId)>,
}

pub struct Db {
    /// The last order id this store assigned; ids count up from 1.
    pub max_id: OrderId,
    /// The known venues, each with its members and orders.
    pub public_chats: Vec<PublicChat>,
    /// Participant profiles, keyed by id, last write wins.
    pub users: Vec<User>,
    /// Messages sent for an order, so we can remove or edit them.
    pub order_msgs: Vec<OrderMsgs>,
}

/// Index of the venue with this id, or -1.
pub open spec fn spec_find_chat(chats: Seq<PublicChat>, cid: ChatId) -> int
    decreases chats.len(),
{
    if chats.len() == 0 {
        -1
    } else if chats[0].chat_id == cid {
        0
    } else if spec_find_chat(chats.drop_first(), cid) < 0 {
        -1
    } else {
        spec_find_chat(chats.drop_first(), cid) + 1
    }
}

pub proof fn lemma_find_chat_props(chats: Seq<PublicChat>, cid: ChatId)
    ensures
        ({
            let r = spec_find_chat(chats, cid);
            &&& r >= 0 ==> r < chats.len() && chats[r].chat_id == cid && (forall|k: int|
                0 <= k < r ==> chats[k].chat_id != cid)
            &&& r < 0 ==> forall|k: int| 0 <= k < chats.len() ==> chats[k].chat_id != cid
        }),
    decreases chats.len(),
{
    if chats.len() > 0 && chats[0].chat_id != cid {
        lemma_find_chat_props(chats.drop_first(), cid);
        let r1 = spec_find_chat(chats.drop_first(), cid);
        if r1 >= 0 {
            assert forall|k: int| 0 <= k < r1 + 1 implies chats[k].chat_id != cid by {
                if k > 0 {
                    assert(chats.drop_first()[k - 1].chat_id != cid);
                }
            }
        } else {
            assert forall|k: int| 0 <= k < chats.len() implies chats[k].chat_id != cid by {
                if k > 0 {
                    assert(chats.drop_first()[k - 1].chat_id != cid);
                }
            }
        }
    }
}

/// Index of the order with this id, or -1.
pub open spec fn spec_find_order(orders: Seq<Order>, oid: OrderId) -> int
    decreases orders.len(),
{
    if orders.len() == 0 {
        -1
    } else if orders[0].id == Some(oid) {
        0
    } else if spec_find_order(orders.drop_first(), oid) < 0 {
        -1
    } else {
        spec_find_order(orders.drop_first(), oid) + 1
    }
}

pub proof fn lemma_find_order_props(orders: Seq<Order>, oid: OrderId)
    ensures
        ({
            let r = spec_find_order(orders, oid);
            &&& r >= 0 ==> r < orders.len() && orders[r].id == Some(oid) && (forall|k: int|
                0 <= k < r ==> orders[k].id != Some(oid))
            &&& r < 0 ==> forall|k: int| 0 <= k < orders.len() ==> orders[k].id != Some(oid)
        }),
    decreases orders.len(),
{
    if orders.len() > 0 && orders[0].id != Some(oid) {
        lemma_find_order_props(orders.drop_first(), oid);
        let r1 = spec_find_order(orders.drop_first(), oid);
        if r1 >= 0 {
            assert forall|k: int| 0 <= k < r1 + 1 implies orders[k].id != Some(oid) by {
                if k > 0 {
                    assert(orders.drop_first()[k - 1].id != Some(oid));
                }
            }
        } else {
            assert forall|k: int| 0 <= k < orders.len() implies orders[k].id != Some(oid) by {
                if k > 0 {
                    assert(orders.drop_first()[k - 1].id != Some(oid));
                }
            }
        }
    }
}

/// Index of the profile with this id, or -1.
pub open spec fn spec_find_user(users: Seq<User>, uid: UserId) -> int
    decreases users.len(),
{
    if users.len() == 0 {
        -1
    } else if users[0].id == uid {
        0
    } else if spec_find_user(users.drop_first(), uid) < 0 {
        -1
    } else {
        spec_find_user(users.drop_first(), uid) + 1
    }
}

pub proof fn lemma_find_user_props(users: Seq<User>, uid: UserId)
    ensures
        ({
            let r = spec_find_user(users, uid);
            &&& r >= 0 ==> r < users.len() && users[r].id == uid && (forall|k: int|
                0 <= k < r ==> users[k].id != uid)
            &&& r < 0 ==> forall|k: int| 0 <= k < users.len() ==> users[k].id != uid
        }),
    decreases users.len(),
{
    if users.len() > 0 && users[0].id != uid {
        lemma_find_user_props(users.drop_first(), uid);
        let r1 = spec_find_user(users.drop_first(), uid);
        if r1 >= 0 {
            assert forall|k: int| 0 <= k < r1 + 1 implies users[k].id != uid by {
                if k > 0 {
                    assert(users.drop_first()[k - 1].id != uid);
                }
            }
        } else {
            assert forall|k: int| 0 <= k < users.len() implies users[k].id != uid by {
                if k > 0 {
                    assert(users.drop_first()[k - 1].id != uid);
                }
            }
        }
    }
}

/// Index of the notification-location entry for this order, or -1.
pub open spec fn spec_find_msgs(msgs: Seq<OrderMsgs>, oid: OrderId) -> int
    decreases msgs.len(),
{
    if msgs.len() == 0 {
        -1
    } else if msgs[0].order_id == oid {
        0
    } else if spec_find_msgs(msgs.drop_first(), oid) < 0 {
        -1
    } else {
        spec_find_msgs(msgs.drop_first(), oid) + 1
    }
}

pub proof fn lemma_find_msgs_props(msgs: Seq<OrderMsgs>, oid: OrderId)
    ensures
        ({
            let r = spec_find_msgs(msgs, oid);
            &&& r >= 0 ==> r < msgs.len() && msgs[r].order_id == oid && (forall|k: int|
                0 <= k < r ==> msgs[k].order_id != oid)
            &&& r < 0 ==> forall|k: int| 0 <= k < msgs.len() ==> msgs[k].order_id != oid
        }),
    decreases msgs.len(),
{
    if msgs.len() > 0 && msgs[0].order_id != oid {
        lemma_find_msgs_props(msgs.drop_first(), oid);
        let r1 = spec_find_msgs(msgs.drop_first(), oid);
        if r1 >= 0 {
            assert forall|k: int| 0 <= k < r1 + 1 implies msgs[k].order_id != oid by {
                if k > 0 {
                    assert(msgs.drop_first()[k - 1].order_id != oid);
                }
            }
        } else {
            assert forall|k: int| 0 <= k < msgs.len() implies msgs[k].order_id != oid by {
                if k > 0 {
                    assert(msgs.drop_first()[k - 1].order_id != oid);
                }
            }
        }
    }
}

/// The id an order carries, or 0 for a draft that has none.
pub open spec fn spec_order_id(o: Order) -> u64 {
    match o.id {
        Some(oid) => oid.0,
        None => 0,
    }
}

/// A member of a venue is resolved through this predicate.
pub open spec fn spec_is_member(pc: PublicChat, uid: UserId) -> bool {
    pc.members@.contains(uid)
}

impl Db {
    /// Structural soundness of the whole graph: venue, profile and index
    /// keys are unique; every stored order carries an id at most `max_id`,
    /// is lifecycle-consistent, and no two stored orders share an id.
    pub open spec fn wf(self) -> bool {
        &&& forall|i: int, j: int|
            0 <= i < j < self.public_chats@.len() ==> (#[trigger] self.public_chats@[i].chat_id)
                != (#[trigger] self.public_chats@[j].chat_id)
        &&& forall|i: int, j: int|
            0 <= i < j < self.users@.len() ==> (#[trigger] self.users@[i].id)
                != (#[trigger] self.users@[j].id)
        &&& forall|i: int, j: int|
            0 <= i < j < self.order_msgs@.len() ==> (#[trigger] self.order_msgs@[i].order_id)
                != (#[trigger] self.order_msgs@[j].order_id)
        &&& forall|c: int, i: int|
            0 <= c < self.public_chats@.len() && 0 <= i < self.public_chats@[c].orders@.len()
                ==> spec_stored_order_wf(
                #[trigger] self.public_chats@[c].orders@[i],
                self.max_id.0,
            )
        &&& forall|c1: int, i1: int, c2: int, i2: int|
            #![trigger self.public_chats@[c1].orders@[i1], self.public_chats@[c2].orders@[i2]]
            0 <= c1 < self.public_chats@.len() && 0 <= i1 < self.public_chats@[c1].orders@.len()
                && 0 <= c2 < self.public_chats@.len() && 0 <= i2
                < self.public_chats@[c2].orders@.len() && (c1 != c2 || i1 != i2) ==> spec_order_id(
                self.public_chats@[c1].orders@[i1],
            ) != spec_order_id(self.public_chats@[c2].orders@[i2])
    }

    /// The two stores are observably the same graph.
    pub open spec fn same_state(self, other: Db) -> bool {
        &&& self.max_id == other.max_id
        &&& self.public_chats@ == other.public_chats@
        &&& self.users@ == other.users@
        &&& self.order_msgs@ == other.order_msgs@
    }

    pub fn new() -> (r: Db)
        ensures
            r.wf(),
            r.max_id.0 == 0,
            r.public_chats@ == Seq::<PublicChat>::empty(),
            r.users@ == Seq::<User>::empty(),
            r.order_msgs@ == Seq::<OrderMsgs>::empty(),
    {
        Db {
            max_id: OrderId(0),
            public_chats: Vec::new(),
            users: Vec::new(),
            order_msgs: Vec::new(),
        }
    }

    fn find_chat_idx(&self, cid: ChatId) -> (r: Option<usize>)
        ensures
            ({
                let f = spec_find_chat(self.public_chats@, cid);
                match r {
                    Some(i) => f == i && i < self.public_chats@.len(),
                    None => f < 0,
                }
            }),
    {
        let mut i: usize = 0;
        while i < self.public_chats.len()
            invariant
                i <= self.public_chats@.len(),
                forall|k: int| 0 <= k < i ==> self.public_chats@[k].chat_id != cid,
            decreases self.public_chats@.len() - i,
        {
            if self.public_chats[i].chat_id == cid {
                proof {
                    lemma_find_chat_props(self.public_chats@, cid);
                    let f = spec_find_chat(self.public_chats@, cid);
                    if f < 0 {
                        assert(self.public_chats@[i as int].chat_id != cid);
                    } else if f < i as int {
                        assert(self.public_chats@[f].chat_id == cid);
                        assert(self.public_chats@[f].chat_id != cid);
                    } else if f > i as int {
                        assert(self.public_chats@[i as int].chat_id != cid);
                    }
                }
                return Some(i);
            }
            i += 1;
        }
        proof {
            lemma_find_chat_props(self.public_chats@, cid);
            let f = spec_find_chat(self.public_chats@, cid);
            if f >= 0 {
                assert(self.public_chats@[f].chat_id != cid);
            }
        }
        None
    }

    fn find_user_idx(&self, uid: UserId) -> (r: Option<usize>)
        ensures
            ({
                let f = spec_find_user(self.users@, uid);
                match r {
                    Some(i) => f == i && i < self.users@.len(),
                    None => f < 0,
                }
            }),
    {
        let mut i: usize = 0;
        while i < self.users.len()
            invariant
                i <= self.users@.len(),
                forall|k: int| 0 <= k < i ==> self.users@[k].id != uid,
            decreases self.users@.len() - i,
        {
            if self.users[i].id == uid {
                proof {
                    lemma_find_user_props(self.users@, uid);
                    let f = spec_find_user(self.users@, uid);
                    if f < 0 {
                        assert(self.users@[i as int].id != uid);
                    } else if f < i as int {
                        assert(self.users@[f].id == uid);
                        assert(self.users@[f].id != uid);
                    } else if f > i as int {
                        assert(self.users@[i as int].id != uid);
                    }
                }
                return Some(i);
            }
            i += 1;
        }
        proof {
            lemma_find_user_props(self.users@, uid);
            let f = spec_find_user(self.users@, uid);
            if f >= 0 {
                assert(self.users@[f].id != uid);
            }
        }
        None
    }

    /// Upserts a participant profile by id: whole-record replace, last write
    /// wins.
    pub fn update_user(&mut self, user: User)
        requires
            old(self).wf(),
        ensures
            final(self).wf(),
            ({
                let ui = spec_find_user(old(self).users@, user.id);
                if ui < 0 {
                    final(self).users@ == old(self).users@.push(user)
                } else {
                    final(self).users@ == old(self).users@.update(ui, user)
                }
            }),
            final(self).max_id == old(self).max_id,
            final(self).public_chats@ == old(self).public_chats@,
            final(self).order_msgs@ == old(self).order_msgs@,
    {
        proof {
            lemma_find_user_props(self.users@, user.id);
        }
        let found = self.find_user_idx(user.id);
        match found {
            Some(i) => {
                self.users.remove(i);
                self.users.insert(i, user);
                proof {
                    assert(self.users@ =~= old(self).users@.update(
                        spec_find_user(old(self).users@, user.id),
                        user,
                    ));
                    assert forall|a: int, b: int|
                        0 <= a < b < self.users@.len() implies (#[trigger] self.users@[a].id)
                        != (#[trigger] self.users@[b].id) by {
                        assert(old(self).users@[a].id == self.users@[a].id || (a == i
                            && old(self).users@[a].id == user.id));
                        assert(old(self).users@[b].id == self.users@[b].id || (b == i
                            && old(self).users@[b].id == user.id));
                    }
                }
            },
            None => {
                self.users.push(user);
                proof {
                    assert forall|a: int, b: int|
                        0 <= a < b < self.users@.len() implies (#[trigger] self.users@[a].id)
                        != (#[trigger] self.users@[b].id) by {
                        if b == self.users@.len() - 1 {
                            assert(old(self).users@[a].id != user.id);
                        }
                    }
                }
            },
        }
        proof {
            assert(final(self).wf()) by {
                assert(self.public_chats@ == old(self).public_chats@);
            }
        }
    }

    /// The stored profile of a participant, if the store has seen them.
    pub fn get_user(&self, uid: UserId) -> (r: Option<User>)
        ensures
            ({
                let ui = spec_find_user(self.users@, uid);
                if ui < 0 {
                    r is None
                } else {
                    r == Some(self.users@[ui])
                }
            }),
    {
        let found = self.find_user_idx(uid);
        match found {
            Some(i) => Some(self.users[i].clone()),
            None => None,
        }
    }

    /// Upserts venue metadata by id; the first sight of a venue registers an
    /// empty member set. Private chats are no venues: they are rejected.
    pub fn update_chat(&mut self, chat_id: ChatId, kind: ChatKind, title: String) -> (r: Result<
        (),
        DbError,
    >)
        requires
            old(self).wf(),
        ensures
            final(self).wf(),
            final(self).max_id == old(self).max_id,
            final(self).users@ == old(self).users@,
            final(self).order_msgs@ == old(self).order_msgs@,
            ({
                let ci = spec_find_chat(old(self).public_chats@, chat_id);
                match kind {
                    ChatKind::Private => r == Err::<(), DbError>(DbError::PrivateChat(chat_id))
                        && final(self).public_chats@ == old(self).public_chats@,
                    ChatKind::Public => r == Ok::<(), DbError>(()) && if ci >= 0 {
                        let pre = old(self).public_chats@;
                        let post = final(self).public_chats@;
                        &&& post.len() == pre.len()
                        &&& forall|k: int| 0 <= k < pre.len() && k != ci ==> post[k] == pre[k]
                        &&& post[ci].chat_id == chat_id
                        &&& post[ci].title == title
                        &&& post[ci].members == pre[ci].members
                        &&& post[ci].orders == pre[ci].orders
                    } else {
                        let pre = old(self).public_chats@;
                        let post = final(self).public_chats@;
                        &&& post.len() == pre.len() + 1
                        &&& forall|k: int| 0 <= k < pre.len() ==> post[k] == pre[k]
                        &&& post.last().chat_id == chat_id
                        &&& post.last().title == title
                        &&& post.last().members@ == Seq::<UserId>::empty()
                        &&& post.last().orders@ == Seq::<Order>::empty()
                    },
                }
            }),
    {
        match kind {
            ChatKind::Private => Err(DbError::PrivateChat(chat_id)),
            ChatKind::Public => {
                proof {
                    lemma_find_chat_props(self.public_chats@, chat_id);
                }
                let found = self.find_chat_idx(chat_id);
                match found {
                    Some(i) => {
                        let mut pc = self.public_chats.remove(i);
                        pc.title = title;
                        self.public_chats.insert(i, pc);
                        proof {
                            lemma_chats_wf_update(*old(self), *self, i as int);
                        }
                    },
                    None => {
                        let pc = PublicChat::new(chat_id, title);
                        self.public_chats.push(pc);
                        proof {
                            lemma_chats_wf_push(*old(self), *self, chat_id);
                        }
                    },
                }
                Ok(())
            },
        }
    }
}

/// The venues a participant is a member of.
pub open spec fn spec_member_chats(chats: Seq<PublicChat>, uid: UserId) -> Seq<PublicChat> {
    chats.filter(|pc: PublicChat| spec_is_member(pc, uid))
}

/// The orders of a venue currently in the given lifecycle status.
pub open spec fn spec_orders_by_status(orders: Seq<Order>, status: Status) -> Seq<Order> {
    orders.filter(|o: Order| o.spec_status() == status)
}

/// The orders of a venue submitted by the given participant.
pub open spec fn spec_orders_submitted_by(orders: Seq<Order>, uid: UserId) -> Seq<Order> {
    orders.filter(|o: Order| o.customer.id == uid)
}

/// The orders of a venue actively assigned to the given participant:
/// assigned or marked as delivered, with a matching assignee.
pub open spec fn spec_active_assignments(orders: Seq<Order>, uid: UserId) -> Seq<Order> {
    orders.filter(
        |o: Order|
            (o.spec_status() == Status::Assigned || o.spec_status() == Status::MarkedAsDelivered)
                && o.spec_assignee() == Some(uid),
    )
}

impl Db {
    /// Adds members to a venue, each insertion-deduplicated; an unknown
    /// venue makes this a no-op.
    #[verifier::loop_isolation(false)]
    pub fn add_members(&mut self, cid: ChatId, uids: Vec<UserId>)
        requires
            old(self).wf(),
        ensures
            final(self).wf(),
            final(self).max_id == old(self).max_id,
            final(self).users@ == old(self).users@,
            final(self).order_msgs@ == old(self).order_msgs@,
            ({
                let ci = spec_find_chat(old(self).public_chats@, cid);
                let pre = old(self).public_chats@;
                let post = final(self).public_chats@;
                if ci < 0 {
                    post == pre
                } else {
                    &&& post.len() == pre.len()
                    &&& forall|k: int| 0 <= k < pre.len() && k != ci ==> post[k] == pre[k]
                    &&& post[ci].chat_id == pre[ci].chat_id
                    &&& post[ci].title == pre[ci].title
                    &&& post[ci].orders == pre[ci].orders
                    &&& post[ci].members@ == spec_add_members(pre[ci].members@, uids@)
                }
            }),
    {
        let found = self.find_chat_idx(cid);
        if found.is_none() {
            return ;
        }
        let ci = found.unwrap();
        let mut pc = self.public_chats.remove(ci);
        let ghost ms0 = pc.members@;
        let mut j: usize = 0;
        proof {
            assert(uids@.take(0) =~= Seq::<UserId>::empty());
        }
        while j < uids.len()
            invariant
                j <= uids@.len(),
                pc.members@ == spec_add_members(ms0, uids@.take(j as int)),
                pc.chat_id == old(self).public_chats@[ci as int].chat_id,
                pc.title == old(self).public_chats@[ci as int].title,
                pc.orders == old(self).public_chats@[ci as int].orders,
            decreases uids@.len() - j,
        {
            pc.add_user(uids[j]);
            proof {
                assert(uids@.take(j + 1).drop_last() =~= uids@.take(j as int));
                assert(uids@.take(j + 1).last() == uids@[j as int]);
            }
            j += 1;
        }
        proof {
            assert(uids@.take(uids@.len() as int) =~= uids@);
        }
        self.public_chats.insert(ci, pc);
        proof {
            assert(self.public_chats@ =~= old(self).public_chats@.update(ci as int, pc));
            lemma_chats_wf_update(*old(self), *self, ci as int);
        }
    }

    /// Removes a participant from a venue's member set; removing an absent
    /// member, or from an unknown venue, is a no-op.
    pub fn remove_chat_membership(&mut self, cid: ChatId, uid: UserId)
        requires
            old(self).wf(),
        ensures
            final(self).wf(),
            final(self).max_id == old(self).max_id,
            final(self).users@ == old(self).users@,
            final(self).order_msgs@ == old(self).order_msgs@,
            ({
                let ci = spec_find_chat(old(self).public_chats@, cid);
                let pre = old(self).public_chats@;
                let post = final(self).public_chats@;
                if ci < 0 {
                    post == pre
                } else {
                    let j = spec_find_member(pre[ci].members@, uid);
                    &&& post.len() == pre.len()
                    &&& forall|k: int| 0 <= k < pre.len() && k != ci ==> post[k] == pre[k]
                    &&& post[ci].chat_id == pre[ci].chat_id
                    &&& post[ci].title == pre[ci].title
                    &&& post[ci].orders == pre[ci].orders
                    &&& post[ci].members@ == (if j < 0 {
                        pre[ci].members@
                    } else {
                        pre[ci].members@.remove(j)
                    })
                }
            }),
    {
        let found = self.find_chat_idx(cid);
        if found.is_none() {
            return ;
        }
        let ci = found.unwrap();
        let mut pc = self.public_chats.remove(ci);
        pc.remove_user(uid);
        self.public_chats.insert(ci, pc);
        proof {
            assert(self.public_chats@ =~= old(self).public_chats@.update(ci as int, pc));
            lemma_chats_wf_update(*old(self), *self, ci as int);
        }
    }

    /// The id and display name of every venue the participant is a member
    /// of.
    #[verifier::loop_isolation(false)]
    pub fn user_public_chats(&self, uid: UserId) -> (r: Vec<(ChatId, String)>)
        ensures
            ({
                let flt = spec_member_chats(self.public_chats@, uid);
                &&& r@.len() == flt.len()
                &&& forall|k: int|
                    0 <= k < flt.len() ==> (#[trigger] r@[k]).0 == flt[k].chat_id && r@[k].1@
                        == flt[k].title@
            }),
    {
        let ghost whole = self.public_chats@;
        let mut res: Vec<(ChatId, String)> = Vec::new();
        let mut i: usize = 0;
        proof {
            reveal(Seq::filter);
            assert(whole.take(0) =~= Seq::<PublicChat>::empty());
        }
        while i < self.public_chats.len()
            invariant
                i <= whole.len(),
                ({
                    let flt = spec_member_chats(whole.take(i as int), uid);
                    &&& res@.len() == flt.len()
                    &&& forall|k: int|
                        0 <= k < flt.len() ==> (#[trigger] res@[k]).0 == flt[k].chat_id
                            && res@[k].1@ == flt[k].title@
                }),
            decreases whole.len() - i,
        {
            let ghost fpre = spec_member_chats(whole.take(i as int), uid);
            proof {
                reveal(Seq::filter);
                assert(whole.take(i + 1).drop_last() =~= whole.take(i as int));
                assert(whole.take(i + 1).last() == whole[i as int]);
            }
            let pc = &self.public_chats[i];
            if pc.has_user(uid) {
                res.push((pc.chat_id, pc.title.clone()));
                proof {
                    assert(spec_member_chats(whole.take(i + 1), uid) =~= fpre.push(
                        whole[i as int],
                    ));
                }
            } else {
                proof {
                    assert(spec_member_chats(whole.take(i + 1), uid) =~= fpre);
                }
            }
            i += 1;
        }
        proof {
            assert(whole.take(whole.len() as int) =~= whole);
        }
        res
    }

    /// Resolves which single venue an interaction concerns. An interaction
    /// inside a venue names it directly and always resolves to it; a private
    /// interaction resolves through the membership index, and is rejected
    /// when the participant is in no venue or in more than one.
    pub fn resolve_pub_chat(&self, direct_pub_chat: Option<ChatId>, uid: UserId) -> (r: Result<
        ChatId,
        PubChatFromMsgError,
    >)
        ensures
            ({
                let flt = spec_member_chats(self.public_chats@, uid);
                match direct_pub_chat {
                    Some(cid) => r == Ok::<ChatId, PubChatFromMsgError>(cid),
                    None => if flt.len() == 0 {
                        r == Err::<ChatId, PubChatFromMsgError>(PubChatFromMsgError::NotInPubChats)
                    } else if flt.len() > 1 {
                        r == Err::<ChatId, PubChatFromMsgError>(PubChatFromMsgError::MultipleChats)
                    } else {
                        r == Ok::<ChatId, PubChatFromMsgError>(flt[0].chat_id)
                    },
                }
            }),
    {
        match direct_pub_chat {
            Some(cid) => Ok(cid),
            None => {
                let chats = self.user_public_chats(uid);
                if chats.len() == 0 {
                    Err(PubChatFromMsgError::NotInPubChats)
                } else if chats.len() > 1 {
                    Err(PubChatFromMsgError::MultipleChats)
                } else {
                    Ok(chats[0].0)
                }
            },
        }
    }

    /// The orders of a venue in the given status, as value copies.
    #[verifier::loop_isolation(false)]
    pub fn orders_by_status(&self, pub_chat_id: ChatId, status: Status) -> (r: Result<
        Vec<Order>,
        DbError,
    >)
        ensures
            ({
                let ci = spec_find_chat(self.public_chats@, pub_chat_id);
                match r {
                    Ok(v) => ci >= 0 && v@ == spec_orders_by_status(
                        self.public_chats@[ci].orders@,
                        status,
                    ),
                    Err(e) => ci < 0 && e == DbError::ChatNotFound(pub_chat_id),
                }
            }),
    {
        let found = self.find_chat_idx(pub_chat_id);
        if found.is_none() {
            return Err(DbError::ChatNotFound(pub_chat_id));
        }
        let ci = found.unwrap();
        let pc = &self.public_chats[ci];
        let ghost whole = pc.orders@;
        let mut res: Vec<Order> = Vec::new();
        let mut i: usize = 0;
        proof {
            reveal(Seq::filter);
            assert(whole.take(0) =~= Seq::<Order>::empty());
            assert(res@ =~= spec_orders_by_status(whole.take(0), status));
        }
        while i < pc.orders.len()
            invariant
                i <= whole.len(),
                res@ == spec_orders_by_status(whole.take(i as int), status),
            decreases whole.len() - i,
        {
            proof {
                reveal(Seq::filter);
                assert(whole.take(i + 1).drop_last() =~= whole.take(i as int));
                assert(whole.take(i + 1).last() == whole[i as int]);
            }
            let o = &pc.orders[i];
            if o.status() == status {
                res.push(o.clone());
                proof {
                    assert(res@ =~= spec_orders_by_status(whole.take(i + 1), status));
                }
            } else {
                proof {
                    assert(res@ =~= spec_orders_by_status(whole.take(i + 1), status));
                }
            }
            i += 1;
        }
        proof {
            assert(whole.take(whole.len() as int) =~= whole);
        }
        Ok(res)
    }

    /// The orders of a venue submitted by a participant, as value copies.
    #[verifier::loop_isolation(false)]
    pub fn orders_submitted_by_user(&self, pub_chat_id: ChatId, uid: UserId) -> (r: Result<
        Vec<Order>,
        DbError,
    >)
        ensures
            ({
                let ci = spec_find_chat(self.public_chats@, pub_chat_id);
                match r {
                    Ok(v) => ci >= 0 && v@ == spec_orders_submitted_by(
                        self.public_chats@[ci].orders@,
                        uid,
                    ),
                    Err(e) => ci < 0 && e == DbError::ChatNotFound(pub_chat_id),
                }
            }),
    {
        let found = self.find_chat_idx(pub_chat_id);
        if found.is_none() {
            return Err(DbError::ChatNotFound(pub_chat_id));
        }
        let ci = found.unwrap();
        let pc = &self.public_chats[ci];
        let ghost whole = pc.orders@;
        let mut res: Vec<Order> = Vec::new();
        let mut i: usize = 0;
        proof {
            reveal(Seq::filter);
            assert(whole.take(0) =~= Seq::<Order>::empty());
            assert(res@ =~= spec_orders_submitted_by(whole.take(0), uid));
        }
        while i < pc.orders.len()
            invariant
                i <= whole.len(),
                res@ == spec_orders_submitted_by(whole.take(i as int), uid),
            decreases whole.len() - i,
        {
            proof {
                reveal(Seq::filter);
                assert(whole.take(i + 1).drop_last() =~= whole.take(i as int));
                assert(whole.take(i + 1).last() == whole[i as int]);
            }
            let o = &pc.orders[i];
            if o.customer.id == uid {
                res.push(o.clone());
                proof {
                    assert(res@ =~= spec_orders_submitted_by(whole.take(i + 1), uid));
                }
            } else {
                proof {
                    assert(res@ =~= spec_orders_submitted_by(whole.take(i + 1), uid));
                }
            }
            i += 1;
        }
        proof {
            assert(whole.take(whole.len() as int) =~= whole);
        }
        Ok(res)
    }

    /// The orders of a venue actively assigned to a participant (assigned or
    /// marked as delivered), as value copies.
    #[verifier::loop_isolation(false)]
    pub fn active_assignments_to(&self, pub_chat_id: ChatId, uid: UserId) -> (r: Result<
        Vec<Order>,
        DbError,
    >)
        ensures
            ({
                let ci = spec_find_chat(self.public_chats@, pub_chat_id);
                match r {
                    Ok(v) => ci >= 0 && v@ == spec_active_assignments(
                        self.public_chats@[ci].orders@,
                        uid,
                    ),
                    Err(e) => ci < 0 && e == DbError::ChatNotFound(pub_chat_id),
                }
            }),
    {
        let found = self.find_chat_idx(pub_chat_id);
        if found.is_none() {
            return Err(DbError::ChatNotFound(pub_chat_id));
        }
        let ci = found.unwrap();
        let pc = &self.public_chats[ci];
        let ghost whole = pc.orders@;
        let mut res: Vec<Order> = Vec::new();
        let mut i: usize = 0;
        proof {
            reveal(Seq::filter);
            assert(whole.take(0) =~= Seq::<Order>::empty());
            assert(res@ =~= spec_active_assignments(whole.take(0), uid));
        }
        while i < pc.orders.len()
            invariant
                i <= whole.len(),
                res@ == spec_active_assignments(whole.take(i as int), uid),
            decreases whole.len() - i,
        {
            proof {
                reveal(Seq::filter);
                assert(whole.take(i + 1).drop_last() =~= whole.take(i as int));
                assert(whole.take(i + 1).last() == whole[i as int]);
            }
            let o = &pc.orders[i];
            let assignee_matches = match &o.assigned {
                Some(t) => t.1 == uid,
                None => false,
            };
            if o.is_active_assignment() && assignee_matches {
                res.push(o.clone());
                proof {
                    assert(res@ =~= spec_active_assignments(whole.take(i + 1), uid));
                }
            } else {
                proof {
                    assert(res@ =~= spec_active_assignments(whole.take(i + 1), uid));
                }
            }
            i += 1;
        }
        proof {
            assert(whole.take(whole.len() as int) =~= whole);
        }
        Ok(res)
    }
}

/// Recording a notification location is a no-op when that location is
/// already recorded.
pub open spec fn spec_add_location(ls: Seq<(ChatId, MessageId)>, p: (ChatId, MessageId)) -> Seq<
    (ChatId, MessageId),
> {
    if ls.contains(p) {
        ls
    } else {
        ls.push(p)
    }
}

/// How one call of `perform_action` at time `now` relates the store before
/// and after, and the value it returns: not-found and not-permitted requests
/// leave the store untouched; `Delete` removes the order and its
/// notification-location entry; any other permitted action replaces the
/// order with its transition and hands the updated copy back.
pub open spec fn spec_perform_outcome(
    pre: Db,
    post: Db,
    user: User,
    pub_chat_id: ChatId,
    action: Action,
    now: Timestamp,
    r: Result<(Status, Option<Order>), ActionError>,
) -> bool {
    let ci = spec_find_chat(pre.public_chats@, pub_chat_id);
    if ci < 0 || spec_find_order(pre.public_chats@[ci].orders@, action.order_id) < 0 {
        &&& r == Err::<(Status, Option<Order>), ActionError>(
            ActionError::OrderNotFound(action.order_id),
        )
        &&& post == pre
    } else {
        let oi = spec_find_order(pre.public_chats@[ci].orders@, action.order_id);
        let o = pre.public_chats@[ci].orders@[oi];
        if !o.spec_permitted(user.id, action.kind) {
            &&& r == Err::<(Status, Option<Order>), ActionError>(ActionError::NotPermitted)
            &&& post == pre
        } else if action.kind == ActionKind::Delete {
            let mi = spec_find_msgs(pre.order_msgs@, action.order_id);
            &&& r == Ok::<(Status, Option<Order>), ActionError>((o.spec_status(), None))
            &&& post.max_id == pre.max_id
            &&& post.users@ == pre.users@
            &&& post.public_chats@.len() == pre.public_chats@.len()
            &&& forall|k: int|
                0 <= k < pre.public_chats@.len() && k != ci ==> post.public_chats@[k]
                    == pre.public_chats@[k]
            &&& post.public_chats@[ci].chat_id == pre.public_chats@[ci].chat_id
            &&& post.public_chats@[ci].title == pre.public_chats@[ci].title
            &&& post.public_chats@[ci].members == pre.public_chats@[ci].members
            &&& post.public_chats@[ci].orders@ == pre.public_chats@[ci].orders@.remove(oi)
            &&& post.order_msgs@ == (if mi < 0 {
                pre.order_msgs@
            } else {
                pre.order_msgs@.remove(mi)
            })
        } else {
            let o2 = o.spec_apply(user, action.kind, now);
            &&& r == Ok::<(Status, Option<Order>), ActionError>((o.spec_status(), Some(o2)))
            &&& post.max_id == pre.max_id
            &&& post.users@ == pre.users@
            &&& post.order_msgs@ == pre.order_msgs@
            &&& post.public_chats@.len() == pre.public_chats@.len()
            &&& forall|k: int|
                0 <= k < pre.public_chats@.len() && k != ci ==> post.public_chats@[k]
                    == pre.public_chats@[k]
            &&& post.public_chats@[ci].chat_id == pre.public_chats@[ci].chat_id
            &&& post.public_chats@[ci].title == pre.public_chats@[ci].title
            &&& post.public_chats@[ci].members == pre.public_chats@[ci].members
            &&& post.public_chats@[ci].orders@ == pre.public_chats@[ci].orders@.update(oi, o2)
            &&& o2.spec_status() == spec_next_status(action.kind)
        }
    }
}

fn find_order_idx(orders: &Vec<Order>, oid: OrderId) -> (r: Option<usize>)
    ensures
        ({
            let f = spec_find_order(orders@, oid);
            match r {
                Some(i) => f == i && i < orders@.len(),
                None => f < 0,
            }
        }),
{
    let mut i: usize = 0;
    while i < orders.len()
        invariant
            i <= orders@.len(),
            forall|k: int| 0 <= k < i ==> orders@[k].id != Some(oid),
        decreases orders@.len() - i,
    {
        let matches_id = match &orders[i].id {
            Some(x) => x.0 == oid.0,
            None => false,
        };
        if matches_id {
            proof {
                lemma_find_order_props(orders@, oid);
                assert(orders@[i as int].id == Some(oid));
                let f = spec_find_order(orders@, oid);
                if f < 0 {
                    assert(orders@[i as int].id != Some(oid));
                } else if f < i as int {
                    assert(orders@[f].id == Some(oid));
                    assert(orders@[f].id != Some(oid));
                } else if f > i as int {
                    assert(orders@[i as int].id != Some(oid));
                }
            }
            return Some(i);
        }
        i += 1;
    }
    proof {
        lemma_find_order_props(orders@, oid);
        let f = spec_find_order(orders@, oid);
        if f >= 0 {
            assert(orders@[f].id != Some(oid));
        }
    }
    None
}

fn find_msgs_idx(msgs: &Vec<OrderMsgs>, oid: OrderId) -> (r: Option<usize>)
    ensures
        ({
            let f = spec_find_msgs(msgs@, oid);
            match r {
                Some(i) => f == i && i < msgs@.len(),
                None => f < 0,
            }
        }),
{
    let mut i: usize = 0;
    while i < msgs.len()
        invariant
            i <= msgs@.len(),
            forall|k: int| 0 <= k < i ==> msgs@[k].order_id != oid,
        decreases msgs@.len() - i,
    {
        if msgs[i].order_id == oid {
            proof {
                lemma_find_msgs_props(msgs@, oid);
                let f = spec_find_msgs(msgs@, oid);
                if f < 0 {
                    assert(msgs@[i as int].order_id != oid);
                } else if f < i as int {
                    assert(msgs@[f].order_id == oid);
                    assert(msgs@[f].order_id != oid);
                } else if f > i as int {
                    assert(msgs@[i as int].order_id != oid);
                }
            }
            return Some(i);
        }
        i += 1;
    }
    proof {
        lemma_find_msgs_props(msgs@, oid);
        let f = spec_find_msgs(msgs@, oid);
        if f >= 0 {
            assert(msgs@[f].order_id != oid);
        }
    }
    None
}

impl Db {
    /// Assigns a fresh id from the store-wide counter and inserts the order
    /// into the named venue's collection; the draft is stamped with the new
    /// id. The counter advances even when the venue is unknown.
    pub fn add_order(&mut self, pub_chat_id: ChatId, order: &mut Order) -> (r: Result<
        OrderId,
        DbError,
    >)
        requires
            old(self).wf(),
            old(order).consistent(),
            old(self).max_id.0 < u64::MAX,
        ensures
            final(self).wf(),
            final(self).max_id.0 == old(self).max_id.0 + 1,
            final(self).users@ == old(self).users@,
            final(self).order_msgs@ == old(self).order_msgs@,
            ({
                let ci = spec_find_chat(old(self).public_chats@, pub_chat_id);
                let new_id = OrderId((old(self).max_id.0 + 1) as u64);
                let pre = old(self).public_chats@;
                let post = final(self).public_chats@;
                if ci < 0 {
                    &&& r == Err::<OrderId, DbError>(DbError::ChatNotFound(pub_chat_id))
                    &&& *final(order) == *old(order)
                    &&& post == pre
                } else {
                    &&& r == Ok::<OrderId, DbError>(new_id)
                    &&& *final(order) == Order { id: Some(new_id), ..*old(order) }
                    &&& post.len() == pre.len()
                    &&& forall|k: int| 0 <= k < pre.len() && k != ci ==> post[k] == pre[k]
                    &&& post[ci].chat_id == pre[ci].chat_id
                    &&& post[ci].title == pre[ci].title
                    &&& post[ci].members == pre[ci].members
                    &&& post[ci].orders@ == pre[ci].orders@.push(*final(order))
                }
            }),
    {
        let new_id = OrderId(self.max_id.0 + 1);
        self.max_id = new_id;
        proof {
            lemma_wf_max_grow(*old(self), *self);
        }
        let found = self.find_chat_idx(pub_chat_id);
        if found.is_none() {
            return Err(DbError::ChatNotFound(pub_chat_id));
        }
        let ci = found.unwrap();
        order.id = Some(new_id);
        let ghost mid = *self;
        let mut pc = self.public_chats.remove(ci);
        pc.orders.push(order.clone());
        self.public_chats.insert(ci, pc);
        proof {
            assert(self.public_chats@ =~= mid.public_chats@.update(ci as int, pc));
            lemma_wf_add_order(mid, *self, ci as int, *order);
        }
        Ok(new_id)
    }

    /// The single read-modify-write entry point, at time `now`: locate the
    /// order in the venue, authorize against its current state, then delete
    /// it or apply the field mutation, returning the status it had before.
    pub fn perform_action_at(
        &mut self,
        user: User,
        pub_chat_id: ChatId,
        action: &Action,
        now: Timestamp,
    ) -> (r: Result<(Status, Option<Order>), ActionError>)
        requires
            old(self).wf(),
        ensures
            final(self).wf(),
            spec_perform_outcome(*old(self), *final(self), user, pub_chat_id, *action, now, r),
    {
        let ghost u0 = user;
        let found = self.find_chat_idx(pub_chat_id);
        if found.is_none() {
            return Err(ActionError::OrderNotFound(action.order_id));
        }
        let ci = found.unwrap();
        let found_order = find_order_idx(&self.public_chats[ci].orders, action.order_id);
        if found_order.is_none() {
            return Err(ActionError::OrderNotFound(action.order_id));
        }
        let oi = found_order.unwrap();
        if !self.public_chats[ci].orders[oi].is_action_permitted(user.id, action) {
            return Err(ActionError::NotPermitted);
        }
        let is_delete = match action.kind {
            ActionKind::Delete => true,
            _ => false,
        };
        if is_delete {
            let ghost pre = *self;
            let mut pc = self.public_chats.remove(ci);
            let removed = pc.orders.remove(oi);
            let prev_status = removed.status();
            self.public_chats.insert(ci, pc);
            proof {
                assert(self.public_chats@ =~= pre.public_chats@.update(ci as int, pc));
            }
            let ghost mid = *self;
            let found_msgs = find_msgs_idx(&self.order_msgs, action.order_id);
            if let Some(mi) = found_msgs {
                self.order_msgs.remove(mi);
            }
            proof {
                lemma_wf_remove_order(pre, *self, ci as int, oi as int);
            }
            Ok((prev_status, None))
        } else {
            let ghost pre = *self;
            let mut pc = self.public_chats.remove(ci);
            let mut o = pc.orders.remove(oi);
            let prev = o.perform_action_at(user, action, now);
            let ghost o2 = o;
            let out = o.clone();
            pc.orders.insert(oi, o);
            self.public_chats.insert(ci, pc);
            proof {
                assert(pc.orders@ =~= pre.public_chats@[ci as int].orders@.update(oi as int, o2));
                assert(self.public_chats@ =~= pre.public_chats@.update(ci as int, pc));
                lemma_wf_order_update(pre, *self, ci as int, oi as int, o2);
                assert(prev == Ok::<Status, ActionError>(
                    pre.public_chats@[ci as int].orders@[oi as int].spec_status(),
                ));
            }
            match prev {
                Ok(prev_status) => Ok((prev_status, Some(out))),
                Err(_) => {
                    proof {
                        assert(false);
                    }
                    Err(ActionError::Other)
                },
            }
        }
    }

    /// The single read-modify-write entry point, timestamping the mutation
    /// with the wall clock. Performs the action and returns the previous
    /// status and the updated order; a deleted order is returned as `None`.
    pub fn perform_action(&mut self, user: User, pub_chat_id: ChatId, action: &Action) -> (r:
        Result<(Status, Option<Order>), ActionError>)
        requires
            old(self).wf(),
        ensures
            final(self).wf(),
            exists|t: Timestamp|
                spec_perform_outcome(
                    *old(self),
                    *final(self),
                    user,
                    pub_chat_id,
                    *action,
                    t,
                    r,
                ),
    {
        let ghost u0 = user;
        let now = now_timestamp();
        let r = self.perform_action_at(user, pub_chat_id, action, now);
        proof {
            assert(spec_perform_outcome(*old(self), *self, u0, pub_chat_id, *action, now, r));
        }
        r
    }

    /// Every (chat, message) location where this order has been shown;
    /// empty when none is recorded.
    #[verifier::loop_isolation(false)]
    pub fn order_msg_ids(&self, oid: OrderId) -> (r: Vec<(ChatId, MessageId)>)
        ensures
            ({
                let mi = spec_find_msgs(self.order_msgs@, oid);
                if mi < 0 {
                    r@ == Seq::<(ChatId, MessageId)>::empty()
                } else {
                    r@ == self.order_msgs@[mi].locations@
                }
            }),
    {
        let found = find_msgs_idx(&self.order_msgs, oid);
        let mut res: Vec<(ChatId, MessageId)> = Vec::new();
        match found {
            None => {
                proof {
                    assert(res@ =~= Seq::<(ChatId, MessageId)>::empty());
                }
                res
            },
            Some(mi) => {
                let locations = &self.order_msgs[mi].locations;
                let mut i: usize = 0;
                while i < locations.len()
                    invariant
                        i <= locations@.len(),
                        res@ == locations@.take(i as int),
                    decreases locations@.len() - i,
                {
                    let p = locations[i];
                    res.push(p);
                    proof {
                        assert(res@ =~= locations@.take(i + 1));
                    }
                    i += 1;
                }
                proof {
                    assert(locations@.take(locations@.len() as int) =~= locations@);
                }
                res
            },
        }
    }

    /// Records that a message shows this order, so `order_msg_ids` returns
    /// it later; recording the same location twice keeps one copy.
    #[verifier::loop_isolation(false)]
    pub fn add_msg_id(&mut self, oid: OrderId, cid: ChatId, mid: MessageId)
        requires
            old(self).wf(),
        ensures
            final(self).wf(),
            final(self).max_id == old(self).max_id,
            final(self).users@ == old(self).users@,
            final(self).public_chats@ == old(self).public_chats@,
            ({
                let mi = spec_find_msgs(old(self).order_msgs@, oid);
                let pre = old(self).order_msgs@;
                let post = final(self).order_msgs@;
                if mi < 0 {
                    &&& post.len() == pre.len() + 1
                    &&& forall|k: int| 0 <= k < pre.len() ==> post[k] == pre[k]
                    &&& post.last().order_id == oid
                    &&& post.last().locations@ == seq![(cid, mid)]
                } else {
                    &&& post.len() == pre.len()
                    &&& forall|k: int| 0 <= k < pre.len() && k != mi ==> post[k] == pre[k]
                    &&& post[mi].order_id == oid
                    &&& post[mi].locations@ == spec_add_location(pre[mi].locations@, (cid, mid))
                }
            }),
    {
        let found = find_msgs_idx(&self.order_msgs, oid);
        match found {
            None => {
                proof {
                    lemma_find_msgs_props(self.order_msgs@, oid);
                }
                let mut locations: Vec<(ChatId, MessageId)> = Vec::new();
                locations.push((cid, mid));
                self.order_msgs.push(OrderMsgs { order_id: oid, locations });
                proof {
                    let pre = old(self).order_msgs@;
                    let post = self.order_msgs@;
                    assert(post.len() == pre.len() + 1);
                    assert forall|k: int| 0 <= k < pre.len() implies post[k] == pre[k] by {
                        assert(post[k] == pre.push(self.order_msgs@.last())[k]);
                    }
                    assert(post.last().order_id == oid);
                    assert(self.order_msgs@.last().locations@ =~= seq![(cid, mid)]);
                    assert forall|a: int, b: int|
                        0 <= a < b < self.order_msgs@.len() implies (
                    #[trigger] self.order_msgs@[a].order_id) != (
                    #[trigger] self.order_msgs@[b].order_id) by {
                        if b == self.order_msgs@.len() - 1 {
                            assert(old(self).order_msgs@[a].order_id != oid);
                        }
                    }
                }
            },
            Some(mi) => {
                proof {
                    lemma_find_msgs_props(self.order_msgs@, oid);
                }
                let mut entry = self.order_msgs.remove(mi);
                let mut present = false;
                let mut i: usize = 0;
                while i < entry.locations.len()
                    invariant
                        i <= entry.locations@.len(),
                        present == entry.locations@.take(i as int).contains((cid, mid)),
                    decreases entry.locations@.len() - i,
                {
                    proof {
                        assert(entry.locations@.take(i + 1).drop_last() =~= entry.locations@.take(
                            i as int,
                        ));
                        assert(entry.locations@.take(i + 1).last() == entry.locations@[i as int]);
                    }
                    let p = entry.locations[i];
                    if p.0 == cid && p.1 == mid {
                        present = true;
                        proof {
                            assert(entry.locations@[i as int] == (cid, mid));
                            assert(entry.locations@.take(i + 1)[i as int] == (cid, mid));
                            assert(entry.locations@.take(i + 1).contains((cid, mid)));
                        }
                    } else {
                        proof {
                            if entry.locations@.take(i + 1).contains((cid, mid)) {
                                let w = choose|w: int|
                                    0 <= w < i + 1 && #[trigger] entry.locations@.take(i + 1)[w]
                                        == (cid, mid);
                                if w < i {
                                    assert(entry.locations@.take(i as int)[w] == (cid, mid));
                                    assert(entry.locations@.take(i as int).contains((cid, mid)));
                                }
                            }
                            if entry.locations@.take(i as int).contains((cid, mid)) {
                                let w = choose|w: int|
                                    0 <= w < i && #[trigger] entry.locations@.take(i as int)[w]
                                        == (cid, mid);
                                assert(entry.locations@.take(i + 1)[w] == (cid, mid));
                                assert(entry.locations@.take(i + 1).contains((cid, mid)));
                            }
                        }
                    }
                    i += 1;
                }
                proof {
                    assert(entry.locations@.take(entry.locations@.len() as int)
                        =~= entry.locations@);
                }
                if !present {
                    entry.locations.push((cid, mid));
                }
                self.order_msgs.insert(mi, entry);
                proof {
                    assert(self.order_msgs@ =~= old(self).order_msgs@.update(mi as int, entry));
                    assert forall|a: int, b: int|
                        0 <= a < b < self.order_msgs@.len() implies (
                    #[trigger] self.order_msgs@[a].order_id) != (
                    #[trigger] self.order_msgs@[b].order_id) by {
                        assert(old(self).order_msgs@[a].order_id == self.order_msgs@[a].order_id
                            || (a == mi && old(self).order_msgs@[a].order_id == oid));
                        assert(old(self).order_msgs@[b].order_id == self.order_msgs@[b].order_id
                            || (b == mi && old(self).order_msgs@[b].order_id == oid));
                    }
                }
            },
        }
    }
}

/// Claims through the store are exclusive: of two `AssignToMe` requests
/// against the same order, serialized by the store's lock, the second finds
/// the order already assigned, is refused as not permitted, and changes
/// nothing — the first claim is never lost.
pub proof fn lemma_store_exclusive_claim(
    db0: Db,
    db1: Db,
    db2: Db,
    u1: User,
    u2: User,
    pub_chat_id: ChatId,
    a: Action,
    t1: Timestamp,
    t2: Timestamp,
    r1: Result<(Status, Option<Order>), ActionError>,
    r2: Result<(Status, Option<Order>), ActionError>,
)
    requires
        db0.wf(),
        a.kind == ActionKind::AssignToMe,
        spec_perform_outcome(db0, db1, u1, pub_chat_id, a, t1, r1),
        spec_perform_outcome(db1, db2, u2, pub_chat_id, a, t2, r2),
        r1 is Ok,
    ensures
        r2 == Err::<(Status, Option<Order>), ActionError>(ActionError::NotPermitted),
        db2 == db1,
{
    let chats0 = db0.public_chats@;
    let chats1 = db1.public_chats@;
    let ci = spec_find_chat(chats0, pub_chat_id);
    lemma_find_chat_props(chats0, pub_chat_id);
    lemma_find_chat_props(chats1, pub_chat_id);
    assert(ci >= 0);
    let orders0 = chats0[ci].orders@;
    let oi = spec_find_order(orders0, a.order_id);
    lemma_find_order_props(orders0, a.order_id);
    assert(oi >= 0);
    let o = orders0[oi];
    assert(o.spec_permitted(u1.id, a.kind));
    let o2 = o.spec_apply(u1, a.kind, t1);

    // the venue keeps its position: chat ids are unchanged pointwise
    let ci1 = spec_find_chat(chats1, pub_chat_id);
    assert forall|k: int| 0 <= k < ci implies chats1[k].chat_id != pub_chat_id by {
        assert(chats1[k].chat_id == chats0[k].chat_id);
    }
    assert(chats1[ci].chat_id == pub_chat_id);
    assert(ci1 >= 0) by {
        if ci1 < 0 {
            assert(chats1[ci].chat_id != pub_chat_id);
        }
    }
    assert(ci1 == ci) by {
        if ci1 < ci {
            assert(chats1[ci1].chat_id == pub_chat_id);
            assert(chats1[ci1].chat_id != pub_chat_id);
        } else if ci1 > ci {
            assert(chats1[ci].chat_id != pub_chat_id);
        }
    }

    // the order keeps its position: its id is untouched by the transition
    let orders1 = chats1[ci].orders@;
    assert(orders1 == orders0.update(oi, o2));
    assert(o2.id == o.id);
    let oi1 = spec_find_order(orders1, a.order_id);
    lemma_find_order_props(orders1, a.order_id);
    assert forall|k: int| 0 <= k < oi implies orders1[k].id != Some(a.order_id) by {
        assert(orders1[k] == orders0[k]);
    }
    assert(orders1[oi].id == Some(a.order_id));
    assert(oi1 >= 0) by {
        if oi1 < 0 {
            assert(orders1[oi].id != Some(a.order_id));
        }
    }
    assert(oi1 == oi) by {
        if oi1 < oi {
            assert(orders1[oi1].id == Some(a.order_id));
            assert(orders1[oi1].id != Some(a.order_id));
        } else if oi1 > oi {
            assert(orders1[oi].id != Some(a.order_id));
        }
    }

    // the claimed order offers no second claim, whoever asks
    lemma_exclusive_claim(o, u1, u2.id, t1);
    assert(orders1[oi1] == o2);
    assert(!o2.spec_permitted(u2.id, a.kind));
}

/// Raising the id counter alone keeps the store well-formed.
proof fn lemma_wf_max_grow(pre: Db, post: Db)
    requires
        pre.wf(),
        post.max_id.0 >= pre.max_id.0,
        post.public_chats@ == pre.public_chats@,
        post.users@ == pre.users@,
        post.order_msgs@ == pre.order_msgs@,
    ensures
        post.wf(),
{
    assert forall|c: int, i: int|
        0 <= c < post.public_chats@.len() && 0 <= i
            < post.public_chats@[c].orders@.len() implies spec_stored_order_wf(
        #[trigger] post.public_chats@[c].orders@[i],
        post.max_id.0,
    ) by {
        assert(spec_stored_order_wf(pre.public_chats@[c].orders@[i], pre.max_id.0));
    }
}

/// Appending a consistent order carrying the freshly assigned id keeps the
/// store well-formed.
proof fn lemma_wf_add_order(pre: Db, post: Db, ci: int, o: Order)
    requires
        pre.wf(),
        0 <= ci < pre.public_chats@.len(),
        o.id == Some(pre.max_id),
        1 <= pre.max_id.0,
        o.consistent(),
        post.max_id == pre.max_id,
        forall|c: int, i: int|
            0 <= c < pre.public_chats@.len() && 0 <= i < pre.public_chats@[c].orders@.len()
                ==> spec_order_id(#[trigger] pre.public_chats@[c].orders@[i]) < pre.max_id.0,
        post.users@ == pre.users@,
        post.order_msgs@ == pre.order_msgs@,
        post.public_chats@.len() == pre.public_chats@.len(),
        forall|k: int|
            0 <= k < pre.public_chats@.len() && k != ci ==> post.public_chats@[k]
                == pre.public_chats@[k],
        post.public_chats@[ci].chat_id == pre.public_chats@[ci].chat_id,
        post.public_chats@[ci].orders@ == pre.public_chats@[ci].orders@.push(o),
        forall|c: int, i: int|
            0 <= c < pre.public_chats@.len() && 0 <= i < pre.public_chats@[c].orders@.len()
                ==> spec_stored_order_wf(#[trigger] pre.public_chats@[c].orders@[i], pre.max_id.0),
        forall|i: int, j: int|
            0 <= i < j < pre.public_chats@.len() ==> (#[trigger] pre.public_chats@[i].chat_id)
                != (#[trigger] pre.public_chats@[j].chat_id),
        forall|c1: int, i1: int, c2: int, i2: int|
            #![trigger pre.public_chats@[c1].orders@[i1], pre.public_chats@[c2].orders@[i2]]
            0 <= c1 < pre.public_chats@.len() && 0 <= i1 < pre.public_chats@[c1].orders@.len() && 0
                <= c2 < pre.public_chats@.len() && 0 <= i2 < pre.public_chats@[c2].orders@.len()
                && (c1 != c2 || i1 != i2) ==> spec_order_id(pre.public_chats@[c1].orders@[i1])
                != spec_order_id(pre.public_chats@[c2].orders@[i2]),
    ensures
        post.wf(),
{
    let n = pre.public_chats@.len() as int;
    let prelen = pre.public_chats@[ci].orders@.len() as int;
    assert forall|i: int, j: int|
        0 <= i < j < post.public_chats@.len() implies (#[trigger] post.public_chats@[i].chat_id)
        != (#[trigger] post.public_chats@[j].chat_id) by {
        assert(post.public_chats@[i].chat_id == pre.public_chats@[i].chat_id);
        assert(post.public_chats@[j].chat_id == pre.public_chats@[j].chat_id);
    }
    assert forall|c: int, i: int|
        0 <= c < post.public_chats@.len() && 0 <= i
            < post.public_chats@[c].orders@.len() implies spec_stored_order_wf(
        #[trigger] post.public_chats@[c].orders@[i],
        post.max_id.0,
    ) by {
        if c != ci {
            assert(post.public_chats@[c].orders@[i] == pre.public_chats@[c].orders@[i]);
        } else if i < prelen {
            assert(post.public_chats@[c].orders@[i] == pre.public_chats@[c].orders@[i]);
        } else {
            assert(post.public_chats@[c].orders@[i] == o);
        }
    }
    assert forall|c1: int, i1: int, c2: int, i2: int|
        #![trigger post.public_chats@[c1].orders@[i1], post.public_chats@[c2].orders@[i2]]
        0 <= c1 < post.public_chats@.len() && 0 <= i1 < post.public_chats@[c1].orders@.len() && 0
            <= c2 < post.public_chats@.len() && 0 <= i2 < post.public_chats@[c2].orders@.len() && (
    c1 != c2 || i1 != i2) implies spec_order_id(post.public_chats@[c1].orders@[i1])
        != spec_order_id(post.public_chats@[c2].orders@[i2]) by {
        let new1 = c1 == ci && i1 == prelen;
        let new2 = c2 == ci && i2 == prelen;
        if new1 && new2 {
            assert(false);
        } else if new1 {
            assert(post.public_chats@[c1].orders@[i1] == o);
            assert(post.public_chats@[c2].orders@[i2] == pre.public_chats@[c2].orders@[i2]);
            assert(spec_order_id(pre.public_chats@[c2].orders@[i2]) < pre.max_id.0);
        } else if new2 {
            assert(post.public_chats@[c2].orders@[i2] == o);
            assert(post.public_chats@[c1].orders@[i1] == pre.public_chats@[c1].orders@[i1]);
            assert(spec_order_id(pre.public_chats@[c1].orders@[i1]) < pre.max_id.0);
        } else {
            assert(post.public_chats@[c1].orders@[i1] == pre.public_chats@[c1].orders@[i1]);
            assert(post.public_chats@[c2].orders@[i2] == pre.public_chats@[c2].orders@[i2]);
        }
    }
}

/// Removing an order (and its notification-location entry, if any) keeps
/// the store well-formed.
proof fn lemma_wf_remove_order(pre: Db, post: Db, ci: int, oi: int)
    requires
        pre.wf(),
        0 <= ci < pre.public_chats@.len(),
        0 <= oi < pre.public_chats@[ci].orders@.len(),
        post.max_id == pre.max_id,
        post.users@ == pre.users@,
        post.public_chats@.len() == pre.public_chats@.len(),
        forall|k: int|
            0 <= k < pre.public_chats@.len() && k != ci ==> post.public_chats@[k]
                == pre.public_chats@[k],
        post.public_chats@[ci].chat_id == pre.public_chats@[ci].chat_id,
        post.public_chats@[ci].orders@ == pre.public_chats@[ci].orders@.remove(oi),
        post.order_msgs@ == pre.order_msgs@ || exists|mi: int|
            0 <= mi < pre.order_msgs@.len() && post.order_msgs@ == pre.order_msgs@.remove(mi),
    ensures
        post.wf(),
{
    let n = pre.public_chats@.len() as int;
    assert forall|i: int, j: int|
        0 <= i < j < post.public_chats@.len() implies (#[trigger] post.public_chats@[i].chat_id)
        != (#[trigger] post.public_chats@[j].chat_id) by {
        assert(post.public_chats@[i].chat_id == pre.public_chats@[i].chat_id);
        assert(post.public_chats@[j].chat_id == pre.public_chats@[j].chat_id);
    }
    assert forall|i: int, j: int|
        0 <= i < j < post.order_msgs@.len() implies (#[trigger] post.order_msgs@[i].order_id) != (
    #[trigger] post.order_msgs@[j].order_id) by {
        if post.order_msgs@ != pre.order_msgs@ {
            let mi = choose|mi: int|
                0 <= mi < pre.order_msgs@.len() && post.order_msgs@ == pre.order_msgs@.remove(mi);
            assert(post.order_msgs@[i] == (if i < mi {
                pre.order_msgs@[i]
            } else {
                pre.order_msgs@[i + 1]
            }));
            assert(post.order_msgs@[j] == (if j < mi {
                pre.order_msgs@[j]
            } else {
                pre.order_msgs@[j + 1]
            }));
        }
    }
    assert forall|c: int, i: int|
        0 <= c < post.public_chats@.len() && 0 <= i
            < post.public_chats@[c].orders@.len() implies spec_stored_order_wf(
        #[trigger] post.public_chats@[c].orders@[i],
        post.max_id.0,
    ) by {
        if c != ci {
            assert(post.public_chats@[c].orders@[i] == pre.public_chats@[c].orders@[i]);
        } else {
            assert(post.public_chats@[c].orders@[i] == (if i < oi {
                pre.public_chats@[c].orders@[i]
            } else {
                pre.public_chats@[c].orders@[i + 1]
            }));
        }
    }
    assert forall|c1: int, i1: int, c2: int, i2: int|
        #![trigger post.public_chats@[c1].orders@[i1], post.public_chats@[c2].orders@[i2]]
        0 <= c1 < post.public_chats@.len() && 0 <= i1 < post.public_chats@[c1].orders@.len() && 0
            <= c2 < post.public_chats@.len() && 0 <= i2 < post.public_chats@[c2].orders@.len() && (
    c1 != c2 || i1 != i2) implies spec_order_id(post.public_chats@[c1].orders@[i1])
        != spec_order_id(post.public_chats@[c2].orders@[i2]) by {
        let j1 = if c1 == ci && i1 >= oi {
            i1 + 1
        } else {
            i1
        };
        let j2 = if c2 == ci && i2 >= oi {
            i2 + 1
        } else {
            i2
        };
        assert(post.public_chats@[c1].orders@[i1] == pre.public_chats@[c1].orders@[j1]);
        assert(post.public_chats@[c2].orders@[i2] == pre.public_chats@[c2].orders@[j2]);
        assert(spec_order_id(pre.public_chats@[c1].orders@[j1]) != spec_order_id(
            pre.public_chats@[c2].orders@[j2],
        ));
    }
}

/// Replacing an order with one that keeps its id and stays consistent keeps
/// the store well-formed.
proof fn lemma_wf_order_update(pre: Db, post: Db, ci: int, oi: int, o2: Order)
    requires
        pre.wf(),
        0 <= ci < pre.public_chats@.len(),
        0 <= oi < pre.public_chats@[ci].orders@.len(),
        o2.id == pre.public_chats@[ci].orders@[oi].id,
        o2.consistent(),
        post.max_id == pre.max_id,
        post.users@ == pre.users@,
        post.order_msgs@ == pre.order_msgs@,
        post.public_chats@.len() == pre.public_chats@.len(),
        forall|k: int|
            0 <= k < pre.public_chats@.len() && k != ci ==> post.public_chats@[k]
                == pre.public_chats@[k],
        post.public_chats@[ci].chat_id == pre.public_chats@[ci].chat_id,
        post.public_chats@[ci].orders@ == pre.public_chats@[ci].orders@.update(oi, o2),
    ensures
        post.wf(),
{
    assert forall|i: int, j: int|
        0 <= i < j < post.public_chats@.len() implies (#[trigger] post.public_chats@[i].chat_id)
        != (#[trigger] post.public_chats@[j].chat_id) by {
        assert(post.public_chats@[i].chat_id == pre.public_chats@[i].chat_id);
        assert(post.public_chats@[j].chat_id == pre.public_chats@[j].chat_id);
    }
    assert forall|c: int, i: int|
        0 <= c < post.public_chats@.len() && 0 <= i
            < post.public_chats@[c].orders@.len() implies spec_stored_order_wf(
        #[trigger] post.public_chats@[c].orders@[i],
        post.max_id.0,
    ) by {
        if c == ci && i == oi {
            assert(spec_stored_order_wf(pre.public_chats@[c].orders@[i], pre.max_id.0));
            assert(post.public_chats@[c].orders@[i] == o2);
        } else if c == ci {
            assert(post.public_chats@[c].orders@[i] == pre.public_chats@[c].orders@[i]);
        } else {
            assert(post.public_chats@[c].orders@[i] == pre.public_chats@[c].orders@[i]);
        }
    }
    assert forall|c1: int, i1: int, c2: int, i2: int|
        #![trigger post.public_chats@[c1].orders@[i1], post.public_chats@[c2].orders@[i2]]
        0 <= c1 < post.public_chats@.len() && 0 <= i1 < post.public_chats@[c1].orders@.len() && 0
            <= c2 < post.public_chats@.len() && 0 <= i2 < post.public_chats@[c2].orders@.len() && (
    c1 != c2 || i1 != i2) implies spec_order_id(post.public_chats@[c1].orders@[i1])
        != spec_order_id(post.public_chats@[c2].orders@[i2]) by {
        assert(spec_order_id(post.public_chats@[c1].orders@[i1]) == spec_order_id(
            pre.public_chats@[c1].orders@[i1],
        ));
        assert(spec_order_id(post.public_chats@[c2].orders@[i2]) == spec_order_id(
            pre.public_chats@[c2].orders@[i2],
        ));
    }
}

/// After replacing the venue at `ci` with one that keeps its chat id and
/// orders, the store is still well-formed.
proof fn lemma_chats_wf_update(pre: Db, post: Db, ci: int)
    requires
        pre.wf(),
        0 <= ci < pre.public_chats@.len(),
        post.public_chats@.len() == pre.public_chats@.len(),
        forall|k: int|
            0 <= k < pre.public_chats@.len() && k != ci ==> post.public_chats@[k]
                == pre.public_chats@[k],
        post.public_chats@[ci].chat_id == pre.public_chats@[ci].chat_id,
        post.public_chats@[ci].orders == pre.public_chats@[ci].orders,
        post.max_id == pre.max_id,
        post.users@ == pre.users@,
        post.order_msgs@ == pre.order_msgs@,
    ensures
        post.wf(),
{
    assert forall|i: int, j: int|
        0 <= i < j < post.public_chats@.len() implies (#[trigger] post.public_chats@[i].chat_id)
        != (#[trigger] post.public_chats@[j].chat_id) by {
        assert(post.public_chats@[i].chat_id == pre.public_chats@[i].chat_id);
        assert(post.public_chats@[j].chat_id == pre.public_chats@[j].chat_id);
    }
    assert forall|c: int, i: int|
        0 <= c < post.public_chats@.len() && 0 <= i
            < post.public_chats@[c].orders@.len() implies spec_stored_order_wf(
        #[trigger] post.public_chats@[c].orders@[i],
        post.max_id.0,
    ) by {
        assert(post.public_chats@[c].orders@ == pre.public_chats@[c].orders@);
        assert(pre.public_chats@[c].orders@[i] == post.public_chats@[c].orders@[i]);
    }
    assert forall|c1: int, i1: int, c2: int, i2: int|
        #![trigger post.public_chats@[c1].orders@[i1], post.public_chats@[c2].orders@[i2]]
        0 <= c1 < post.public_chats@.len() && 0 <= i1 < post.public_chats@[c1].orders@.len() && 0
            <= c2 < post.public_chats@.len() && 0 <= i2 < post.public_chats@[c2].orders@.len() && (
        c1 != c2 || i1 != i2) implies spec_order_id(post.public_chats@[c1].orders@[i1])
        != spec_order_id(post.public_chats@[c2].orders@[i2]) by {
        assert(post.public_chats@[c1].orders@ == pre.public_chats@[c1].orders@);
        assert(post.public_chats@[c2].orders@ == pre.public_chats@[c2].orders@);
        assert(pre.public_chats@[c1].orders@[i1] == post.public_chats@[c1].orders@[i1]);
        assert(pre.public_chats@[c2].orders@[i2] == post.public_chats@[c2].orders@[i2]);
    }
}

/// After appending a venue with a fresh chat id and no orders, the store is
/// still well-formed.
proof fn lemma_chats_wf_push(pre: Db, post: Db, cid: ChatId)
    requires
        pre.wf(),
        spec_find_chat(pre.public_chats@, cid) < 0,
        post.public_chats@.len() == pre.public_chats@.len() + 1,
        forall|k: int|
            0 <= k < pre.public_chats@.len() ==> post.public_chats@[k] == pre.public_chats@[k],
        post.public_chats@.last().chat_id == cid,
        post.public_chats@.last().orders@ == Seq::<Order>::empty(),
        post.max_id == pre.max_id,
        post.users@ == pre.users@,
        post.order_msgs@ == pre.order_msgs@,
    ensures
        post.wf(),
{
    lemma_find_chat_props(pre.public_chats@, cid);
    let n = pre.public_chats@.len() as int;
    assert forall|i: int, j: int|
        0 <= i < j < post.public_chats@.len() implies (#[trigger] post.public_chats@[i].chat_id)
        != (#[trigger] post.public_chats@[j].chat_id) by {
        if j < n {
            assert(post.public_chats@[i].chat_id == pre.public_chats@[i].chat_id);
            assert(post.public_chats@[j].chat_id == pre.public_chats@[j].chat_id);
        } else {
            assert(post.public_chats@[i].chat_id == pre.public_chats@[i].chat_id);
            assert(pre.public_chats@[i].chat_id != cid);
        }
    }
    assert forall|c: int, i: int|
        0 <= c < post.public_chats@.len() && 0 <= i
            < post.public_chats@[c].orders@.len() implies spec_stored_order_wf(
        #[trigger] post.public_chats@[c].orders@[i],
        post.max_id.0,
    ) by {
        assert(c < n);
        assert(post.public_chats@[c].orders@ == pre.public_chats@[c].orders@);
        assert(pre.public_chats@[c].orders@[i] == post.public_chats@[c].orders@[i]);
    }
    assert forall|c1: int, i1: int, c2: int, i2: int|
        #![trigger post.public_chats@[c1].orders@[i1], post.public_chats@[c2].orders@[i2]]
        0 <= c1 < post.public_chats@.len() && 0 <= i1 < post.public_chats@[c1].orders@.len() && 0
            <= c2 < post.public_chats@.len() && 0 <= i2 < post.public_chats@[c2].orders@.len() && (
        c1 != c2 || i1 != i2) implies spec_order_id(post.public_chats@[c1].orders@[i1])
        != spec_order_id(post.public_chats@[c2].orders@[i2]) by {
        assert(c1 < n && c2 < n);
        assert(post.public_chats@[c1].orders@ == pre.public_chats@[c1].orders@);
        assert(post.public_chats@[c2].orders@ == pre.public_chats@[c2].orders@);
        assert(pre.public_chats@[c1].orders@[i1] == post.public_chats@[c1].orders@[i1]);
        assert(pre.public_chats@[c2].orders@[i2] == post.public_chats@[c2].orders@[i2]);
    }
}

/// What holds of every order resident in a well-formed store: it has an id,
/// the id is within the assigned range, and its lifecycle evidence is
/// coherent.
pub open spec fn spec_stored_order_wf(o: Order, max_id: u64) -> bool {
    &&& o.id is Some
    &&& 1 <= spec_order_id(o) <= max_id
    &&& o.consistent()
}

} // verus!

