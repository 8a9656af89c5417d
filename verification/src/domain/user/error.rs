//! Errors of authentication and of the user store.
use vstd::prelude::*;

verus! {

/// Why an authentication or token request failed; each variant carries a
/// description of the cause.
#[derive(Debug, Clone)]
pub enum AuthError {
    InvalidPermission(String),
    InvalidCredentials(String),
    UnexpectedError(String),
}

/// What can go wrong in the user store.
#[derive(Debug, Clone)]
pub enum UserError {
    NotFound,
    Exists,
    InvalidPassword,
    Unkown(String),
}

/// The text that an authentication error displays.
pub open spec fn auth_error_text(e: AuthError) -> Seq<char> {
    match e {
        AuthError::InvalidPermission(_) => "Invalid permission."@,
        AuthError::InvalidCredentials(_) => "Invalid credentials."@,
        AuthError::UnexpectedError(cause) => cause@,
    }
}

/// The text that a user store error displays.
pub open spec fn user_error_text(e: UserError) -> Seq<char> {
    match e {
        UserError::NotFound => "User not found"@,
        UserError::Exists => "User already exists"@,
        UserError::InvalidPassword => "Invalid password"@,
        UserError::Unkown(cause) => cause@,
    }
}

impl AuthError {
    /// The displayed text of the error.
    pub fn message(&self) -> (r: String)
        ensures
            r@ == auth_error_text(*self),
    {
        match self {
            AuthError::InvalidPermission(_) => String::from_str("Invalid permission."),
            AuthError::InvalidCredentials(_) => String::from_str("Invalid credentials."),
            AuthError::UnexpectedError(cause) => cause.clone(),
        }
    }
}

impl UserError {
    /// The displayed text of the error.
    pub fn message(&self) -> (r: String)
        ensures
            r@ == user_error_text(*self),
    {
        match self {
            UserError::NotFound => String::from_str("User not found"),
            UserError::Exists => String::from_str("User already exists"),
            UserError::InvalidPassword => String::from_str("Invalid password"),
            UserError::Unkown(cause) => cause.clone(),
        }
    }
}

} // verus!
