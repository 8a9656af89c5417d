use bookmark::domain::bookmark::models::{
    Bookmark as DBookmark, BookmarkAdd, BookmarkBatchAdd, BookmarkUpdate, Category as DCategory,
    CategoryWithBookmarkCount as Cwbm, QueryArgs, Tag as DTag,
};
use bookmark::domain::user::models::UserInfo;
use bookmark::infra::database::bookmark::{
    add_bookmark_steps, batch_columns, dedup_by_url, listing_query, update_bookmark_steps, Bookmark,
    Category, CategoryWithBookmarkCount, Tag, WriteStep, LIST_ORDER, LIST_SELECT, TAG_EXISTS,
    TAG_EXISTS_END,
};
use bookmark::infra::database::user::User;

fn args(category_id: Option<i32>, tags: Option<Vec<i32>>, keyword: Option<&str>, page: i32, page_size: i32) -> QueryArgs {
    QueryArgs { category_id, tags, keyword: keyword.map(|k| k.to_string()), page, page_size }
}

#[test]
fn listing_without_filters() {
    let q = listing_query(&args(None, None, None, 1, 20));
    let expected = format!("{}{} LIMIT $1 OFFSET $2", LIST_SELECT, LIST_ORDER);
    assert_eq!(q.builder.sql(), expected);
}

#[test]
fn listing_with_every_filter() {
    let q = listing_query(&args(Some(3), Some(vec![1, 2]), Some("  rust "), 2, 10));
    let expected = format!(
        "{} WHERE b.category_id = $1 AND  b.title ILIKE $2 AND {}$3{}{} LIMIT $4 OFFSET $5",
        LIST_SELECT, TAG_EXISTS, TAG_EXISTS_END, LIST_ORDER
    );
    assert_eq!(q.builder.sql(), expected);
}

#[test]
fn listing_by_keyword_only() {
    let q = listing_query(&args(None, Some(vec![]), Some("go"), 1, 20));
    let expected = format!("{} WHERE  b.title ILIKE $1{} LIMIT $2 OFFSET $3", LIST_SELECT, LIST_ORDER);
    assert_eq!(q.builder.sql(), expected);
}

#[test]
fn listing_by_tags_only() {
    let q = listing_query(&args(None, Some(vec![5]), Some("   "), 1, 20));
    let expected = format!(
        "{} WHERE {}$1{}{} LIMIT $2 OFFSET $3",
        LIST_SELECT, TAG_EXISTS, TAG_EXISTS_END, LIST_ORDER
    );
    assert_eq!(q.builder.sql(), expected);
}

#[test]
fn listing_by_category_and_tags() {
    let q = listing_query(&args(Some(9), Some(vec![5, 6]), None, 0, 1000));
    let expected = format!(
        "{} WHERE b.category_id = $1 AND {}$2{}{} LIMIT $3 OFFSET $4",
        LIST_SELECT, TAG_EXISTS, TAG_EXISTS_END, LIST_ORDER
    );
    assert_eq!(q.builder.sql(), expected);
}

#[test]
fn listing_select_reads_tags_as_json() {
    assert!(LIST_SELECT.contains("COALESCE(tags.tags, '[]') AS tags"));
    assert!(TAG_EXISTS.contains("AND nt2.tag_id = ANY("));
}

fn add(tags: Vec<i32>, new_tags: Vec<&str>) -> BookmarkAdd {
    BookmarkAdd {
        title: "t".to_string(),
        url: "https://x".to_string(),
        cover_image: String::new(),
        desc: String::new(),
        tags,
        new_tags: new_tags.into_iter().map(|s| s.to_string()).collect(),
        category_id: 1,
    }
}

#[test]
fn adding_links_existing_then_new_tags() {
    let steps = add_bookmark_steps(&add(vec![4, 2], vec!["web", "db"]));
    assert_eq!(steps.len(), 5);
    assert!(matches!(steps[0], WriteStep::UpsertBookmark));
    assert!(matches!(steps[1], WriteStep::LinkTag(4)));
    assert!(matches!(steps[2], WriteStep::LinkTag(2)));
    assert!(matches!(&steps[3], WriteStep::LinkNewTag(n) if n == "web"));
    assert!(matches!(&steps[4], WriteStep::LinkNewTag(n) if n == "db"));
}

#[test]
fn adding_without_tags() {
    let steps = add_bookmark_steps(&add(vec![], vec![]));
    assert_eq!(steps.len(), 1);
    assert!(matches!(steps[0], WriteStep::UpsertBookmark));
}

#[test]
fn updating_replaces_tags() {
    let u = BookmarkUpdate {
        id: 8,
        title: "t".to_string(),
        url: "u".to_string(),
        cover_image: String::new(),
        desc: String::new(),
        tags: vec![1],
        new_tags: vec!["new".to_string()],
        category_id: 2,
    };
    let steps = update_bookmark_steps(&u);
    assert_eq!(steps.len(), 4);
    assert!(matches!(steps[0], WriteStep::UpdateBookmark));
    assert!(matches!(steps[1], WriteStep::ClearTags));
    assert!(matches!(steps[2], WriteStep::LinkTag(1)));
    assert!(matches!(&steps[3], WriteStep::LinkNewTag(n) if n == "new"));
}

fn item(title: &str, url: &str, category: &str) -> BookmarkBatchAdd {
    BookmarkBatchAdd {
        title: title.to_string(),
        url: url.to_string(),
        cover_image: format!("{}.png", title),
        desc: String::new(),
        category: category.to_string(),
    }
}

#[test]
fn the_last_bookmark_of_a_url_wins() {
    let items = vec![item("a1", "u1", "c"), item("b", "u2", "c"), item("a2", "u1", "d"), item("c", "u3", "c")];
    let kept = dedup_by_url(&items);
    let titles: Vec<&str> = kept.iter().map(|b| b.title.as_str()).collect();
    assert_eq!(titles, vec!["b", "a2", "c"]);
    assert_eq!(kept[1].category, "d");
}

#[test]
fn dedup_of_distinct_urls_keeps_all() {
    let items = vec![item("a", "u1", "c"), item("b", "u2", "c")];
    assert_eq!(dedup_by_url(&items).len(), 2);
    assert!(dedup_by_url(&Vec::new()).is_empty());
}

#[test]
fn columns_file_bookmarks_under_category_ids() {
    let rows = vec![(10, "dev".to_string()), (11, "news".to_string()), (12, "dev".to_string())];
    let items = vec![item("a", "u1", "news"), item("b", "u2", "dev")];
    let cols = batch_columns(&rows, &items);
    assert_eq!(cols.titles, vec!["a".to_string(), "b".to_string()]);
    assert_eq!(cols.urls, vec!["u1".to_string(), "u2".to_string()]);
    assert_eq!(cols.category_ids, vec![11, 12]);
    assert_eq!(cols.cover_images, vec!["a.png".to_string(), "b.png".to_string()]);
}

#[test]
fn rows_become_domain_values() {
    let c: DCategory = Category { id: 1, name: "dev".to_string() }.into();
    assert_eq!((c.id, c.name.as_str()), (1, "dev"));
    let t: DTag = Tag { id: 2, name: "rust".to_string() }.into();
    assert_eq!((t.id, t.name.as_str()), (2, "rust"));
    let w: Cwbm = CategoryWithBookmarkCount { id: 3, name: "x".to_string(), bookmark_count: 42 }.into();
    assert_eq!(w.bookmark_count, 42);
    let u: UserInfo = User { username: "alice".to_string(), role: "admin".to_string() }.into();
    assert!(u.is_admin());
    let b = Bookmark {
        id: 5,
        title: "T".to_string(),
        url: "U".to_string(),
        cover_image: "C".to_string(),
        tags: vec![Tag { id: 1, name: "a".to_string() }, Tag { id: 2, name: "b".to_string() }],
        category_id: 9,
        created_at: 1_700_000_000,
    };
    let d: DBookmark = b.into_domain();
    assert_eq!(d.id, 5);
    assert_eq!(d.tags.len(), 2);
    assert_eq!(d.tags[1].name, "b");
    assert_eq!(d.category_id, 9);
    assert_eq!(d.created_at, 1_700_000_000);
}
