//! Users and API tokens.
use crate::utils::text::str_eq;
use vstd::prelude::*;

verus! {

#[derive(Debug, Clone)]
pub struct UserInfo {
    pub username: String,
    pub role: String,
}

/// An issued API token; `expire_time` is the token's lifetime in
/// milliseconds when issued, and its expiry instant (seconds since the
/// epoch) when read back from a token.
#[derive(Debug, Clone)]
pub struct UserToken {
    pub username: String,
    pub token: String,
    pub expire_time: u64,
}

impl UserInfo {
    /// Whether the user holds the `admin` role.
    pub fn is_admin(&self) -> (r: bool)
        ensures
            r == (self.role@ == "admin"@),
    {
        str_eq(self.role.as_str(), "admin")
    }
}

} // verus!
