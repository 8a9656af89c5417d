//! Who may reach the protected pages.
use crate::domain::user::error::AuthError;
use crate::domain::user::models::UserToken;
use crate::routes::user::SessionUser;
use crate::utils::text::{chars_of, slice_range_eq, string_of};
use vstd::prelude::*;

verus! {

/// The token of an `Authorization: Bearer <token>` header.
pub open spec fn bearer_token(header: Seq<char>) -> Option<Seq<char>> {
    if header.len() >= 7 && header.subrange(0, 7) == "Bearer "@ {
        Some(header.subrange(7, header.len() as int))
    } else {
        None
    }
}

/// A header made of `Bearer ` and a token gives back that token.
pub proof fn lemma_bearer_round_trip(token: Seq<char>)
    ensures
        bearer_token("Bearer "@ + token) == Some(token),
{
    reveal_strlit("Bearer ");
    let h = "Bearer "@ + token;
    assert(h.subrange(0, 7) =~= "Bearer "@);
    assert(h.subrange(7, h.len() as int) =~= token);
}

/// The bearer token of the `Authorization` header, when the header is there
/// and readable.
pub fn extract_bearer_token(authorization: Option<&str>) -> (r: Option<String>)
    ensures
        r.deep_view() == match authorization {
            Some(h) => bearer_token(h@),
            None => None,
        },
{
    match authorization {
        None => None,
        Some(h) => {
            let cs = chars_of(h);
            let prefix = chars_of("Bearer ");
            proof {
                reveal_strlit("Bearer ");
            }
            if cs.len() >= 7 && slice_range_eq(cs.as_slice(), 0, 7, prefix.as_slice(), 0, 7) {
                assert(prefix@.subrange(0, 7) =~= prefix@);
                Some(string_of(cs.as_slice(), 7, cs.len()))
            } else {
                proof {
                    if cs@.len() >= 7 {
                        assert(prefix@.subrange(0, 7) =~= prefix@);
                    }
                }
                None
            }
        },
    }
}

/// What the authentication gate does next.
#[derive(Debug, Clone)]
pub enum AuthGate {
    /// Let the request through.
    Pass,
    /// Check this bearer token.
    VerifyToken(String),
    /// Look up the user the token names.
    LookupUser(String),
    /// Send the browser to this path.
    Redirect(String),
}

/// Entry of the check: a session user passes; otherwise a bearer
/// token is checked, and without one the browser goes to the login page.
pub fn auth_gate_start(has_session_user: bool, authorization: Option<&str>) -> (r: AuthGate)
    ensures
        has_session_user ==> r is Pass,
        !has_session_user ==> match match authorization {
            Some(h) => bearer_token(h@),
            None => None,
        } {
            Some(t) => r matches AuthGate::VerifyToken(x) && x@ == t,
            None => r matches AuthGate::Redirect(p) && p@ == "/login"@,
        },
{
    if has_session_user {
        return AuthGate::Pass;
    }
    match extract_bearer_token(authorization) {
        Some(t) => AuthGate::VerifyToken(t),
        None => AuthGate::Redirect(String::from_str("/login")),
    }
}

/// After the token check: a valid token names the user to look up; an
/// invalid one sends the browser to the login page.
pub fn auth_gate_verified(verified: Result<UserToken, AuthError>) -> (r: AuthGate)
    ensures
        match verified {
            Ok(t) => r == AuthGate::LookupUser(t.username),
            Err(_) => r matches AuthGate::Redirect(p) && p@ == "/login"@,
        },
{
    match verified {
        Ok(t) => AuthGate::LookupUser(t.username),
        Err(_) => AuthGate::Redirect(String::from_str("/login")),
    }
}

/// After the user lookup: a known user passes, an unknown one goes to the
/// login page.
pub fn auth_gate_found(found: bool) -> (r: AuthGate)
    ensures
        found ==> r is Pass,
        !found ==> (r matches AuthGate::Redirect(p) && p@ == "/login"@),
{
    if found {
        AuthGate::Pass
    } else {
        AuthGate::Redirect(String::from_str("/login"))
    }
}

/// The admin pages admit only a signed-in administrator.
pub fn admin_allows(user: Option<&SessionUser>) -> (r: bool)
    ensures
        r == match user {
            Some(u) => u.is_admin,
            None => false,
        },
{
    match user {
        Some(u) => u.is_admin,
        None => false,
    }
}

} // verus!
