//! The bookmark data model.
use vstd::prelude::*;

verus! {

#[derive(Debug, Clone)]
pub struct Category {
    pub id: i32,
    pub name: String,
}

#[derive(Debug, Clone)]
pub struct CategoryWithBookmarkCount {
    pub id: i32,
    pub name: String,
    pub bookmark_count: i64,
}

#[derive(Debug, Clone)]
pub struct Tag {
    pub id: i32,
    pub name: String,
}

/// A stored bookmark. `created_at` is the creation instant in seconds since
/// the Unix epoch (UTC).
#[derive(Debug, Clone)]
pub struct Bookmark {
    pub id: i32,
    pub title: String,
    pub url: String,
    pub cover_image: String,
    pub tags: Vec<Tag>,
    pub category_id: i32,
    pub created_at: i64,
}

/// A new bookmark: existing tags by id, new tags by name.
#[derive(Debug, Clone)]
pub struct BookmarkAdd {
    pub title: String,
    pub url: String,
    pub cover_image: String,
    pub desc: String,
    pub tags: Vec<i32>,
    pub new_tags: Vec<String>,
    pub category_id: i32,
}

/// One bookmark of an import, filed under a category by name.
#[derive(Debug, Clone)]
pub struct BookmarkBatchAdd {
    pub title: String,
    pub url: String,
    pub cover_image: String,
    pub desc: String,
    pub category: String,
}

/// The new state of an existing bookmark.
#[derive(Debug, Clone)]
pub struct BookmarkUpdate {
    pub id: i32,
    pub title: String,
    pub url: String,
    pub cover_image: String,
    pub desc: String,
    pub tags: Vec<i32>,
    pub new_tags: Vec<String>,
    pub category_id: i32,
}

/// A page of the bookmark list, filtered by category, tags and keyword.
#[derive(Debug, Clone)]
pub struct QueryArgs {
    pub category_id: Option<i32>,
    pub tags: Option<Vec<i32>>,
    pub keyword: Option<String>,
    pub page: i32,
    pub page_size: i32,
}

} // verus!
