//! Decisions of the user service: authentication, password change and API
//! tokens. The store is read by the caller, which hands each answer in.
use crate::domain::user::error::{user_error_text, AuthError, UserError};
use crate::domain::user::models::UserInfo;
use crate::infra::auth_provider::local::{argon2_accepts, is_new_hash, phc_string_valid, LocalAuthProvider, MAX_PASSWORD_BYTES};
use vstd::prelude::*;
use vstd::string::StringSliceAdditionalSpecFns;

verus! {

/// Text of the error when a password does not match.
pub const INVALID_PASSWORD_TEXT: &'static str = "Invalid password.";

/// Text of the error when a token is refused for bad credentials.
pub const INVALID_CREDENTIALS_TEXT: &'static str = "Invalid credentials";

/// Text of the error when a token is refused to a user who is no admin.
pub const INVALID_PERMISSION_TEXT: &'static str = "Invalid permission";

/// Whether `stored`, the answer of the store for a user's password hash,
/// admits `candidate`.
pub open spec fn password_admitted(stored: Result<String, UserError>, candidate: Seq<char>) -> bool {
    match stored {
        Ok(hash) => phc_string_valid(hash@) && argon2_accepts(hash@, candidate),
        Err(_) => false,
    }
}

/// First half of authentication: checks `candidate` against the stored hash.
/// A missing user gives invalid credentials that carry the store's error; a
/// hash that does not admit the password gives invalid credentials
/// ("Invalid password."). On success the caller reads the user.
pub fn check_password(provider: &LocalAuthProvider, stored: Result<String, UserError>, candidate: &str) -> (r: Result<(), AuthError>)
    ensures
        (r is Ok) <==> password_admitted(stored, candidate@),
        match stored {
            Err(e) => r matches Err(AuthError::InvalidCredentials(m)) && m@ == user_error_text(e),
            Ok(_) => r is Err ==> (r matches Err(AuthError::InvalidCredentials(m)) && m@ == INVALID_PASSWORD_TEXT@),
        },
{
    match stored {
        Ok(hash) => {
            let checked = provider.verify_password(hash.as_str(), candidate);
            match checked {
                Ok(()) => Ok(()),
                Err(_) => Err(AuthError::InvalidCredentials(String::from_str(INVALID_PASSWORD_TEXT))),
            }
        },
        Err(e) => Err(AuthError::InvalidCredentials(e.message())),
    }
}

/// Second half of authentication: the user read after the password was
/// admitted, or an unexpected error that carries the store's error.
pub fn finish_authentication(user: Result<UserInfo, UserError>) -> (r: Result<UserInfo, AuthError>)
    ensures
        match user {
            Ok(u) => r == Ok::<UserInfo, AuthError>(u),
            Err(e) => r matches Err(AuthError::UnexpectedError(m)) && m@ == user_error_text(e),
        },
{
    match user {
        Ok(u) => Ok(u),
        Err(e) => Err(AuthError::UnexpectedError(e.message())),
    }
}

/// A password change: the user must have authenticated, then the new password
/// is hashed as `encrypt_password` does. Gives the user's name and the new
/// hash for the store, or `InvalidPassword` when authentication failed, or
/// an unexpected error that carries the hashing error (only for a password
/// of more than 0xFFFFFFFF bytes).
pub fn change_password_hash(
    provider: &LocalAuthProvider,
    authenticated: Result<UserInfo, AuthError>,
    new_password: &str,
) -> (r: Result<(String, String), UserError>)
    ensures
        authenticated is Err ==> r == Err::<(String, String), UserError>(UserError::InvalidPassword),
        authenticated is Ok && new_password.spec_bytes().len() <= MAX_PASSWORD_BYTES ==> r is Ok,
        authenticated is Ok ==> r !is Err || r->Err_0 is Unkown,
        match (authenticated, r) {
            (Ok(u), Ok((name, hash))) => name@ == u.username@ && is_new_hash(hash@, new_password@),
            _ => true,
        },
{
    match authenticated {
        Err(_) => Err(UserError::InvalidPassword),
        Ok(user) => match provider.encrypt_password(new_password) {
            Ok(hash) => Ok((user.username, hash)),
            Err(e) => Err(UserError::Unkown(e.message())),
        },
    }
}

/// Who may have an API token: an authenticated admin. Failed authentication
/// gives invalid credentials, any other user invalid permission.
pub fn api_token_holder(authenticated: Result<UserInfo, AuthError>) -> (r: Result<UserInfo, AuthError>)
    ensures
        match authenticated {
            Err(_) => r matches Err(AuthError::InvalidCredentials(m)) && m@ == INVALID_CREDENTIALS_TEXT@,
            Ok(u) => if u.role@ == "admin"@ {
                r == Ok::<UserInfo, AuthError>(u)
            } else {
                r matches Err(AuthError::InvalidPermission(m)) && m@ == INVALID_PERMISSION_TEXT@
            },
        },
{
    match authenticated {
        Err(_) => Err(AuthError::InvalidCredentials(String::from_str(INVALID_CREDENTIALS_TEXT))),
        Ok(user) => {
            if user.is_admin() {
                Ok(user)
            } else {
                Err(AuthError::InvalidPermission(String::from_str(INVALID_PERMISSION_TEXT)))
            }
        },
    }
}

} // verus!
