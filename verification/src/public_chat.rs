//! A venue: a shared public chat in which orders are published and claimed,
//! with its member set (insertion-deduplicated) and its order collection.

use vstd::prelude::*;

use crate::ids::ChatId;
use crate::ids::UserId;
use crate::order::Order;

verus! {

pub struct PublicChat {
    pub chat_id: ChatId,
    pub title: String,
    pub members: Vec<UserId>,
    pub orders: Vec<Order>,
}

/// Adding a member is a no-op when the member is already present.
pub open spec fn spec_add_member(ms: Seq<UserId>, uid: UserId) -> Seq<UserId> {
    if ms.contains(uid) {
        ms
    } else {
        ms.push(uid)
    }
}

/// Adding several members in order, each insertion-deduplicated.
pub open spec fn spec_add_members(ms: Seq<UserId>, uids: Seq<UserId>) -> Seq<UserId>
    decreases uids.len(),
{
    if uids.len() == 0 {
        ms
    } else {
        spec_add_member(spec_add_members(ms, uids.drop_last()), uids.last())
    }
}

/// Index of the first occurrence of `uid` in `ms`, or -1.
pub open spec fn spec_find_member(ms: Seq<UserId>, uid: UserId) -> int
    decreases ms.len(),
{
    if ms.len() == 0 {
        -1
    } else if ms[0] == uid {
        0
    } else if spec_find_member(ms.drop_first(), uid) < 0 {
        -1
    } else {
        spec_find_member(ms.drop_first(), uid) + 1
    }
}

/// What `spec_find_member` returns: the first match, or -1 when there is
/// none.
pub proof fn lemma_find_member_props(ms: Seq<UserId>, uid: UserId)
    ensures
        ({
            let r = spec_find_member(ms, uid);
            &&& r >= 0 ==> r < ms.len() && ms[r] == uid && (forall|k: int|
                0 <= k < r ==> ms[k] != uid)
            &&& r < 0 ==> forall|k: int| 0 <= k < ms.len() ==> ms[k] != uid
        }),
    decreases ms.len(),
{
    if ms.len() > 0 && ms[0] != uid {
        lemma_find_member_props(ms.drop_first(), uid);
        let r1 = spec_find_member(ms.drop_first(), uid);
        if r1 >= 0 {
            assert forall|k: int| 0 <= k < r1 + 1 implies ms[k] != uid by {
                if k > 0 {
                    assert(ms.drop_first()[k - 1] != uid);
                }
            }
        } else {
            assert forall|k: int| 0 <= k < ms.len() implies ms[k] != uid by {
                if k > 0 {
                    assert(ms.drop_first()[k - 1] != uid);
                }
            }
        }
    }
}

impl PublicChat {
    pub fn new(chat_id: ChatId, title: String) -> (r: PublicChat)
        ensures
            r.chat_id == chat_id,
            r.title == title,
            r.members@ == Seq::<UserId>::empty(),
            r.orders@ == Seq::<Order>::empty(),
    {
        PublicChat { chat_id, title, members: Vec::new(), orders: Vec::new() }
    }

    pub fn has_user(&self, uid: UserId) -> (r: bool)
        ensures
            r == self.members@.contains(uid),
    {
        let mut i: usize = 0;
        while i < self.members.len()
            invariant
                i <= self.members@.len(),
                forall|k: int| 0 <= k < i ==> self.members@[k] != uid,
            decreases self.members@.len() - i,
        {
            if self.members[i] == uid {
                assert(self.members@.contains(uid));
                return true;
            }
            i += 1;
        }
        proof {
            if self.members@.contains(uid) {
                let k = choose|k: int| 0 <= k < self.members@.len() && self.members@[k] == uid;
            }
        }
        false
    }

    /// Adds a member; adding one who is already present is a no-op.
    pub fn add_user(&mut self, uid: UserId)
        ensures
            final(self).members@ == spec_add_member(old(self).members@, uid),
            final(self).chat_id == old(self).chat_id,
            final(self).title == old(self).title,
            final(self).orders == old(self).orders,
    {
        if !self.has_user(uid) {
            self.members.push(uid);
        }
    }

    /// Removes the first occurrence of a member; removing an absent one is a
    /// no-op.
    pub fn remove_user(&mut self, uid: UserId)
        ensures
            ({
                let j = spec_find_member(old(self).members@, uid);
                if j < 0 {
                    final(self).members@ == old(self).members@
                } else {
                    final(self).members@ == old(self).members@.remove(j)
                }
            }),
            final(self).chat_id == old(self).chat_id,
            final(self).title == old(self).title,
            final(self).orders == old(self).orders,
    {
        proof {
            lemma_find_member_props(self.members@, uid);
        }
        let ghost j = spec_find_member(self.members@, uid);
        let mut i: usize = 0;
        while i < self.members.len()
            invariant
                i <= self.members@.len(),
                forall|k: int| 0 <= k < i ==> self.members@[k] != uid,
                self.members@ == old(self).members@,
                self.chat_id == old(self).chat_id,
                self.title == old(self).title,
                self.orders == old(self).orders,
                j == spec_find_member(old(self).members@, uid),
                j >= 0 ==> j < self.members@.len() && self.members@[j] == uid && (forall|k: int|
                    0 <= k < j ==> self.members@[k] != uid),
                j < 0 ==> forall|k: int| 0 <= k < self.members@.len() ==> self.members@[k] != uid,
            decreases self.members@.len() - i,
        {
            if self.members[i] == uid {
                proof {
                    assert(j == i);
                }
                self.members.remove(i);
                return ;
            }
            i += 1;
        }
        proof {
            if j >= 0 {
                assert(self.members@[j] != uid);
            }
        }
    }
}

} // verus!
