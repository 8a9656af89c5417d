//! The error answered to a request, and what status and message it carries.
use vstd::prelude::*;

verus! {

/// An error answered to a request.
#[derive(Debug, Clone)]
pub enum Error {
    Internal(String),
    NotFound(String),
    InvalidArgument(String),
    InvalidAuth,
    BadRequest(String),
    InvalidPermission(String),
    Validation(String),
    /// The problems of each field, in the order the fields were checked.
    ValidationFields(Vec<(String, Vec<String>)>),
}

pub type ApiResult<T> = Result<T, Error>;

impl Error {
    pub fn internal(str: &str) -> (r: Self)
        ensures
            r matches Error::Internal(m) && m@ == str@,
    {
        Error::Internal(String::from_str(str))
    }

    pub fn bad_request(str: &str) -> (r: Self)
        ensures
            r matches Error::BadRequest(m) && m@ == str@,
    {
        Error::BadRequest(String::from_str(str))
    }

    pub fn invalid_arg(str: &str) -> (r: Self)
        ensures
            r matches Error::InvalidArgument(m) && m@ == str@,
    {
        Error::InvalidArgument(String::from_str(str))
    }

    pub fn not_found(str: &str) -> (r: Self)
        ensures
            r matches Error::NotFound(m) && m@ == str@,
    {
        Error::NotFound(String::from_str(str))
    }

    pub fn invalid_permission(str: &str) -> (r: Self)
        ensures
            r matches Error::InvalidPermission(m) && m@ == str@,
    {
        Error::InvalidPermission(String::from_str(str))
    }

    /// The error for a failed database call: a missing row is "not found",
    /// anything else an internal error.
    pub fn from_db_error(row_not_found: bool) -> (r: Self)
        ensures
            row_not_found ==> (r matches Error::NotFound(m) && m@ == "row not exists"@),
            !row_not_found ==> (r matches Error::Internal(m) && m@ == "Sqlx Error"@),
    {
        if row_not_found {
            Error::NotFound(String::from_str("row not exists"))
        } else {
            Error::Internal(String::from_str("Sqlx Error"))
        }
    }

    /// The error for a JSON failure, carrying its description.
    pub fn from_json_error(description: String) -> (r: Self)
        ensures
            r == Error::Internal(description),
    {
        Error::Internal(description)
    }

    /// The HTTP status of the error's response.
    pub fn status_code(&self) -> (r: u16)
        ensures
            r == error_status(*self),
    {
        match self {
            Error::Internal(_) => 500,
            Error::InvalidArgument(_) => 400,
            Error::NotFound(_) => 404,
            Error::InvalidAuth => 401,
            Error::BadRequest(_) => 400,
            Error::InvalidPermission(_) => 403,
            Error::Validation(_) => 400,
            Error::ValidationFields(_) => 400,
        }
    }

    /// The message of the error's response.
    pub fn response_message(&self) -> (r: String)
        ensures
            r@ == error_response_message(*self),
    {
        match self {
            Error::Internal(m) => m.clone(),
            Error::InvalidArgument(m) => m.clone(),
            Error::NotFound(m) => m.clone(),
            Error::InvalidAuth => String::from_str("InvalidAuth"),
            Error::BadRequest(m) => m.clone(),
            Error::InvalidPermission(m) => m.clone(),
            Error::Validation(m) => m.clone(),
            Error::ValidationFields(_) => String::from_str("Need more fields"),
        }
    }

    /// The error's description.
    pub fn to_message(&self) -> (r: String)
        ensures
            r@ == error_description(*self),
    {
        match self {
            Error::Internal(m) => {
                let mut r = String::from_str("Internal error:");
                r.append(m.as_str());
                r
            },
            Error::NotFound(m) => {
                let mut r = String::from_str("Not Found:");
                r.append(m.as_str());
                r
            },
            Error::InvalidArgument(m) => m.clone(),
            Error::InvalidAuth => String::from_str("InvalidAuth"),
            Error::BadRequest(m) => m.clone(),
            Error::InvalidPermission(m) => m.clone(),
            Error::Validation(m) => m.clone(),
            Error::ValidationFields(_) => String::from_str("Need more fields"),
        }
    }
}

/// The status of each kind of error: 500 internal, 404 not found, 401 bad
/// authentication, 403 forbidden, 400 for the rest.
pub open spec fn error_status(e: Error) -> u16 {
    match e {
        Error::Internal(_) => 500,
        Error::InvalidArgument(_) => 400,
        Error::NotFound(_) => 404,
        Error::InvalidAuth => 401,
        Error::BadRequest(_) => 400,
        Error::InvalidPermission(_) => 403,
        Error::Validation(_) => 400,
        Error::ValidationFields(_) => 400,
    }
}

/// The message of each kind of error's response: the carried message, or a
/// fixed text for the kinds that carry none.
pub open spec fn error_response_message(e: Error) -> Seq<char> {
    match e {
        Error::Internal(m) => m@,
        Error::InvalidArgument(m) => m@,
        Error::NotFound(m) => m@,
        Error::InvalidAuth => "InvalidAuth"@,
        Error::BadRequest(m) => m@,
        Error::InvalidPermission(m) => m@,
        Error::Validation(m) => m@,
        Error::ValidationFields(_) => "Need more fields"@,
    }
}

/// The description of each kind of error.
pub open spec fn error_description(e: Error) -> Seq<char> {
    match e {
        Error::Internal(m) => "Internal error:"@ + m@,
        Error::NotFound(m) => "Not Found:"@ + m@,
        Error::InvalidAuth => "InvalidAuth"@,
        Error::ValidationFields(_) => "Need more fields"@,
        Error::InvalidArgument(m) => m@,
        Error::BadRequest(m) => m@,
        Error::InvalidPermission(m) => m@,
        Error::Validation(m) => m@,
    }
}

} // verus!
