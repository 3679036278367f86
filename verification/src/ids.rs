//! Opaque numeric identifier types: order ids, participant ids, chat (venue)
//! ids and message handles, plus the moment-in-time representation used by the
//! order lifecycle (seconds since the Unix epoch).

use vstd::prelude::*;

verus! {

/// Id of a persisted order, assigned by the store from an atomically
/// incremented counter; never reused.
#[derive(Clone, Copy, Debug, PartialEq, Eq, PartialOrd, Ord, Structural)]
pub struct OrderId(pub u64);

/// Id of a participant (a user of the chat transport).
#[derive(Clone, Copy, Debug, PartialEq, Eq, PartialOrd, Ord, Structural)]
pub struct UserId(pub u64);

/// Id of a chat: positive for a private (one-to-one) chat, other values
/// denote public chats (venues).
#[derive(Clone, Copy, Debug, PartialEq, Eq, PartialOrd, Ord, Structural)]
pub struct ChatId(pub i64);

/// Handle of a message the transport has delivered for us.
#[derive(Clone, Copy, Debug, PartialEq, Eq, PartialOrd, Ord, Structural)]
pub struct MessageId(pub i32);

/// A moment in time, in whole seconds since the Unix epoch.
pub type Timestamp = i64;

/// The private one-to-one chat of a participant is derived deterministically
/// from the participant id; only positive ids that fit a chat id name one.
pub fn uid_to_cid(uid: UserId) -> (cid: ChatId)
    requires
        0 < uid.0 <= i64::MAX as u64,
    ensures
        cid.0 == uid.0 as i64,
        cid.0 > 0,
{
    ChatId(uid.0 as i64)
}

} // verus!
