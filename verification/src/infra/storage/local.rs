//! Image files kept under a root directory.
use crate::domain::image::error::StorageError;
use std::path::Path;
use vstd::prelude::*;

verus! {

/// What `Path::join` gives for a base and a relative or absolute path.
pub uninterp spec fn path_join(base: Seq<char>, path: Seq<char>) -> Seq<char>;

/// Whether `Path::starts_with` finds `base` as a leading run of whole
/// components of `path`.
pub uninterp spec fn path_starts_with(path: Seq<char>, base: Seq<char>) -> bool;

/// Calls `Path::join`; the result, a function of its arguments, is named
/// `path_join`.
#[verifier::external_body]
fn join_path(base: &str, path: &str) -> (r: String)
    ensures
        r@ == path_join(base@, path@),
{
    Path::new(base).join(path).to_string_lossy().into_owned()
}

/// Calls `Path::starts_with`; the result is named `path_starts_with`.
#[verifier::external_body]
fn starts_with_path(path: &str, base: &str) -> (r: bool)
    ensures
        r == path_starts_with(path@, base@),
{
    Path::new(path).starts_with(base)
}

/// File storage under a root directory.
#[derive(Debug, Clone)]
pub struct LocalStorage {
    root: String,
}

impl LocalStorage {
    /// Storage under `root`; the caller makes sure that the directory exists.
    pub fn new(root: String) -> (r: Self)
        ensures
            r.root() == root@,
    {
        LocalStorage { root }
    }

    /// The root directory.
    pub closed spec fn root(&self) -> Seq<char> {
        self.root@
    }

    /// The root directory.
    pub fn root_dir(&self) -> (r: &str)
        ensures
            r@ == self.root(),
    {
        self.root.as_str()
    }

    /// Where the file `id` lives.
    pub fn join(&self, id: &str) -> (r: String)
        ensures
            r@ == path_join(self.root(), id@),
    {
        join_path(self.root.as_str(), id)
    }

    /// The path of a stored file, given what resolving its joined path gave
    /// (`None` where the file does not exist). A path that leaves the root
    /// is refused as not found.
    pub fn checked_path(&self, canonical: Option<String>) -> (r: Result<String, StorageError>)
        ensures
            match canonical {
                None => r matches Err(StorageError::NotFound),
                Some(p) => if path_starts_with(p@, self.root()) {
                    r matches Ok(q) && q@ == p@
                } else {
                    r matches Err(StorageError::NotFound)
                },
            },
    {
        match canonical {
            None => Err(StorageError::NotFound),
            Some(p) => {
                if starts_with_path(p.as_str(), self.root.as_str()) {
                    Ok(p)
                } else {
                    Err(StorageError::NotFound)
                }
            },
        }
    }
}

} // verus!
