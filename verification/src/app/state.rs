//! Directories that the application serves from.
use vstd::prelude::*;

verus! {

/// The directory of the static files.
#[derive(Debug, Clone)]
pub struct StaticDirectory(pub String);

/// The directory of the uploaded images.
#[derive(Debug, Clone)]
pub struct UploadDirectory(pub String);

} // verus!
