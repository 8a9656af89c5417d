//! The user table.
use crate::domain::user::models::UserInfo;
use vstd::prelude::*;

verus! {

/// A row of the user table as read for a user's profile.
#[derive(Debug, Clone)]
pub struct User {
    pub username: String,
    pub role: String,
}

impl From<User> for UserInfo {
    fn from(user: User) -> (r: Self) {
        UserInfo { username: user.username, role: user.role }
    }
}

impl vstd::std_specs::convert::FromSpecImpl<User> for UserInfo {
    open spec fn obeys_from_spec() -> bool {
        true
    }

    open spec fn from_spec(v: User) -> UserInfo {
        UserInfo { username: v.username, role: v.role }
    }
}

} // verus!
