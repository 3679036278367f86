//! A participant record: the profile data the logic reads, keyed by the
//! participant's id.

use vstd::prelude::*;

use crate::ids::UserId;

verus! {

#[derive(Debug)]
pub struct User {
    pub id: UserId,
    pub username: Option<String>,
    pub first_name: String,
    pub last_name: Option<String>,
}

impl Clone for User {
    fn clone(&self) -> (r: Self)
        ensures
            r == *self,
    {
        User {
            id: self.id,
            username: match &self.username {
                Some(u) => Some(u.clone()),
                None => None,
            },
            first_name: self.first_name.clone(),
            last_name: match &self.last_name {
                Some(l) => Some(l.clone()),
                None => None,
            },
        }
    }
}

} // verus!
