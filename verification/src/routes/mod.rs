pub mod bookmark;
pub mod extractor;
pub mod home;
pub mod i18n;
pub mod image;
pub mod middleware;
pub mod user;

use vstd::prelude::*;

verus! {

/// A page handler's answer: a page to render, or a redirect to a path.
#[derive(Debug, Clone)]
pub enum PageResult<T> {
    RenderTemplate(T),
    Redirect(String),
}

} // verus!
