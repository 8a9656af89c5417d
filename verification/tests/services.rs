use bookmark::domain::bookmark::error::BookmarkError;
use bookmark::domain::bookmark::models::{BookmarkBatchAdd, Category, Tag};
use bookmark::domain::bookmark::services::{batch_add_category_names, categories_tags_or_default};

fn batch(category: &str, url: &str) -> BookmarkBatchAdd {
    BookmarkBatchAdd {
        title: format!("title of {}", url),
        url: url.to_string(),
        cover_image: String::new(),
        desc: String::new(),
        category: category.to_string(),
    }
}

fn strings(v: &[&str]) -> Vec<String> {
    v.iter().map(|s| s.to_string()).collect()
}

#[test]
fn category_names_are_sorted_and_unique() {
    let categories = strings(&["news", "dev", "news"]);
    let bookmarks = vec![batch("tools", "https://a"), batch("dev", "https://b")];
    let names = batch_add_category_names(&categories, &bookmarks);
    assert_eq!(names, strings(&["dev", "news", "tools"]));
}

#[test]
fn category_names_sort_by_characters() {
    let categories = strings(&["abc", "ab", "Zeta", "abd", "学习", "alpha"]);
    let names = batch_add_category_names(&categories, &Vec::new());
    let mut expected = categories.clone();
    expected.sort_unstable();
    expected.dedup();
    assert_eq!(names, expected);
    assert_eq!(names, strings(&["Zeta", "ab", "abc", "abd", "alpha", "学习"]));
}

#[test]
fn category_names_depend_only_on_the_names() {
    let a = batch_add_category_names(&strings(&["b", "a"]), &vec![batch("c", "u1")]);
    let b = batch_add_category_names(&strings(&["c"]), &vec![batch("a", "u1"), batch("b", "u2"), batch("a", "u3")]);
    assert_eq!(a, b);
    assert_eq!(a, strings(&["a", "b", "c"]));
}

#[test]
fn category_names_of_an_empty_import() {
    assert!(batch_add_category_names(&Vec::new(), &Vec::new()).is_empty());
}

#[test]
fn categories_and_tags_default_to_empty() {
    let cats = vec![Category { id: 1, name: "dev".to_string() }];
    let (c, t) = categories_tags_or_default(Ok(cats), Err(BookmarkError::NotFound("tags".to_string())));
    assert_eq!(c.len(), 1);
    assert_eq!(c[0].name, "dev");
    assert!(t.is_empty());
    let (c, t) = categories_tags_or_default(
        Err(BookmarkError::Unkown("down".to_string())),
        Ok(vec![Tag { id: 7, name: "rust".to_string() }]),
    );
    assert!(c.is_empty());
    assert_eq!(t[0].id, 7);
}
