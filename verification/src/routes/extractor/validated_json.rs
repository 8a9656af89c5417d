//! A JSON body that was read, parsed and validated.
use crate::error::Error;
use crate::routes::extractor::format_validation_errors;
use crate::routes::extractor::problem_message;
use crate::utils::serde::parse_de_error::{deserialization_message, format_deserialization_error};
use vstd::prelude::*;

verus! {

/// A request body parsed from JSON and found valid.
pub struct ValidatedJson<T>(pub T);

/// Message of a body that could not be read.
pub const UNREADABLE_BODY: &'static str = "参数验证失败";

/// The error of a request whose body could not be read.
pub fn unreadable_body() -> (r: Error)
    ensures
        r matches Error::Validation(m) && m@ == UNREADABLE_BODY@,
{
    Error::Validation(String::from_str(UNREADABLE_BODY))
}

/// What parsing the body gave: the value, or the path of the field where
/// parsing failed with the parser's message; the latter is told to the
/// client in friendly words about the body.
pub fn parsed_body<T>(parsed: Result<T, (String, String)>) -> (r: Result<T, Error>)
    ensures
        match parsed {
            Ok(v) => r == Ok::<T, Error>(v),
            Err((path, message)) => r matches Err(Error::Validation(m)) && m@ == deserialization_message(
                path@,
                message@,
                "body"@,
            ),
        },
{
    match parsed {
        Ok(v) => Ok(v),
        Err((path, message)) => Err(Error::Validation(format_deserialization_error(path.as_str(), message.as_str(), "body"))),
    }
}

/// A parsed body and the problems that validating it found (each field with
/// the messages of its problems; `None` where it is valid): the body, or the
/// problems by field.
pub fn validated_body<T>(value: T, problems: Option<Vec<(String, Vec<Option<String>>)>>) -> (r: Result<ValidatedJson<T>, Error>)
    ensures
        match problems {
            None => r matches Ok(ValidatedJson(v)) && v == value,
            Some(p) => r matches Err(Error::ValidationFields(f)) && f@.len() == p@.len() && forall|k: int|
                0 <= k < p@.len() ==> {
                    &&& (#[trigger] f@[k]).0 == p@[k].0
                    &&& f@[k].1@.len() == p@[k].1@.len()
                    &&& forall|j: int| 0 <= j < p@[k].1@.len() ==> (#[trigger] f@[k].1@[j])@ == problem_message(p@[k].0@, p@[k].1@[j].deep_view())
                },
        },
{
    match problems {
        None => Ok(ValidatedJson(value)),
        Some(p) => Err(Error::ValidationFields(format_validation_errors(&p))),
    }
}

} // verus!
