//! Errors of the bookmark store.
use vstd::prelude::*;

verus! {

/// What can go wrong when reading or writing bookmarks. The last variant
/// carries the message of an unexpected failure.
#[derive(Debug, Clone)]
pub enum BookmarkError {
    NotFound(String),
    Exists(String),
    Unkown(String),
}

} // verus!
