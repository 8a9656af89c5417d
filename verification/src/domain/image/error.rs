//! Errors of image conversion and storage.
use vstd::prelude::*;

verus! {

/// What can go wrong when converting an uploaded image.
#[derive(Debug, Clone)]
pub enum ImageError {
    NotFound,
    InvalidFormat,
    Unkown(String),
    EncodeFailed,
}

/// What can go wrong when storing or reading an image file.
#[derive(Debug, Clone)]
pub enum StorageError {
    NotFound,
    SaveFailed,
    Unkown(String),
}

/// The text that a storage error displays.
pub open spec fn storage_error_text(e: StorageError) -> Seq<char> {
    match e {
        StorageError::NotFound => "file not found"@,
        StorageError::SaveFailed => "file save failed"@,
        StorageError::Unkown(cause) => cause@,
    }
}

impl StorageError {
    /// The displayed text of the error.
    pub fn message(&self) -> (r: String)
        ensures
            r@ == storage_error_text(*self),
    {
        match self {
            StorageError::NotFound => String::from_str("file not found"),
            StorageError::SaveFailed => String::from_str("file save failed"),
            StorageError::Unkown(cause) => cause.clone(),
        }
    }
}

/// The image error that a failed storage operation gives: an unexpected one
/// that carries the storage error's text.
pub fn image_error_from_storage(e: StorageError) -> (r: ImageError)
    ensures
        r matches ImageError::Unkown(m) && m@ == storage_error_text(e),
{
    ImageError::Unkown(e.message())
}

} // verus!
