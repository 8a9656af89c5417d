//! The add, edit, delete and import pages for bookmarks: form checks,
//! conversions into the domain's requests, and what each submission shows.
use crate::domain::bookmark::models::{
    Bookmark, BookmarkAdd, BookmarkBatchAdd, BookmarkUpdate, Category, Tag,
};
use crate::routes::home::contains_i32;
use crate::routes::user::is_blank;
use crate::routes::PageResult;
use crate::utils::text::{chars_of, split_bounds, split_char, string_of, trim, trim_bounds};
use vstd::prelude::*;

verus! {

/// The problems found in a bookmark form, one message per field.
#[derive(Debug, Clone)]
pub struct BookmarkFormErrors {
    pub title: Option<String>,
    pub url: Option<String>,
    pub cover_image: Option<String>,
    pub category_id: Option<String>,
    pub general: Option<String>,
}

impl Default for BookmarkFormErrors {
    fn default() -> (r: Self)
        ensures
            r.title is None && r.url is None && r.cover_image is None && r.category_id is None
                && r.general is None,
    {
        BookmarkFormErrors {
            title: None,
            url: None,
            cover_image: None,
            category_id: None,
            general: None,
        }
    }
}

/// The fields of a bookmark form that are checked.
#[derive(Debug, Clone)]
pub struct ValidateForm {
    pub title: String,
    pub url: String,
    pub cover_image: String,
    pub category_id: Option<i32>,
}

/// The add form as submitted.
#[derive(Debug, Clone)]
pub struct AddBookmarkForm {
    pub title: String,
    pub url: String,
    pub cover_image: String,
    pub desc: String,
    pub category_id: Option<i32>,
    pub tag_ids: Vec<i32>,
    pub new_tags: String,
}

/// The edit form as submitted.
#[derive(Debug, Clone)]
pub struct EditBookmarkForm {
    pub id: i32,
    pub title: String,
    pub url: String,
    pub cover_image: String,
    pub desc: String,
    pub category_id: Option<i32>,
    pub tag_ids: Vec<i32>,
    pub new_tags: String,
}

#[derive(Debug, Clone)]
pub struct DeleteBookmarkForm {
    pub id: i32,
}

#[derive(Debug, Clone)]
pub struct EditBookmarkQuery {
    pub id: i32,
}

/// One bookmark of an import.
#[derive(Debug, Clone)]
pub struct BookmarkImportForm {
    pub title: String,
    pub url: String,
    pub cover_image: String,
    pub category: String,
}

/// An import: categories to create and bookmarks to add.
#[derive(Debug, Clone)]
pub struct ImportPayload {
    pub categories: Vec<String>,
    pub bookmarks: Vec<BookmarkImportForm>,
}

impl From<AddBookmarkForm> for ValidateForm {
    fn from(value: AddBookmarkForm) -> (r: Self) {
        ValidateForm {
            title: value.title,
            url: value.url,
            cover_image: value.cover_image,
            category_id: value.category_id,
        }
    }
}

impl vstd::std_specs::convert::FromSpecImpl<AddBookmarkForm> for ValidateForm {
    open spec fn obeys_from_spec() -> bool {
        true
    }

    open spec fn from_spec(v: AddBookmarkForm) -> ValidateForm {
        ValidateForm {
            title: v.title,
            url: v.url,
            cover_image: v.cover_image,
            category_id: v.category_id,
        }
    }
}

impl From<EditBookmarkForm> for ValidateForm {
    fn from(value: EditBookmarkForm) -> (r: Self) {
        ValidateForm {
            title: value.title,
            url: value.url,
            cover_image: value.cover_image,
            category_id: value.category_id,
        }
    }
}

impl vstd::std_specs::convert::FromSpecImpl<EditBookmarkForm> for ValidateForm {
    open spec fn obeys_from_spec() -> bool {
        true
    }

    open spec fn from_spec(v: EditBookmarkForm) -> ValidateForm {
        ValidateForm {
            title: v.title,
            url: v.url,
            cover_image: v.cover_image,
            category_id: v.category_id,
        }
    }
}

/// The new tag a piece of the form names: the piece trimmed, if not empty.
pub open spec fn new_tag_of(p: Seq<char>) -> Option<Seq<char>> {
    if trim(p).len() == 0 {
        None
    } else {
        Some(trim(p))
    }
}

/// The new tag names typed in a form: the comma separated pieces, trimmed,
/// without the empty ones.
pub open spec fn new_tag_names(s: Seq<char>) -> Seq<Seq<char>> {
    split_char(s, ',').filter_map(|p: Seq<char>| new_tag_of(p))
}

/// Reads the new tag names typed in a form.
pub fn parse_new_tags(s: &String) -> (r: Vec<String>)
    ensures
        r.deep_view() == new_tag_names(s@),
{
    let cs = chars_of(s.as_str());
    let pieces = split_bounds(cs.as_slice(), 0, cs.len(), ',');
    let ghost parts = split_char(cs@.subrange(0, cs@.len() as int), ',');
    assert(cs@.subrange(0, cs@.len() as int) =~= s@);
    let mut out: Vec<String> = Vec::new();
    let mut i: usize = 0;
    while i < pieces.len()
        invariant
            i <= pieces@.len(),
            pieces@.len() == parts.len(),
            parts == split_char(s@, ','),
            forall|k: int|
                0 <= k < pieces@.len() ==> (#[trigger] pieces@[k]).0 <= pieces@[k].1 <= cs@.len()
                    && cs@.subrange(pieces@[k].0 as int, pieces@[k].1 as int) == parts[k],
            out.deep_view() == parts.take(i as int).filter_map(|p: Seq<char>| new_tag_of(p)),
        decreases pieces@.len() - i,
    {
        let (a, b) = pieces[i];
        let (x, y) = trim_bounds(cs.as_slice(), a, b);
        let ghost prev = out.deep_view();
        proof {
            assert(parts.take(i + 1).drop_last() =~= parts.take(i as int));
            assert(parts.take(i + 1).last() == parts[i as int]);
        }
        let ghost t = parts.take(i + 1);
        proof {
            assert(pieces@[i as int] == (a, b));
            assert(cs@.subrange(a as int, b as int) == parts[i as int]);
            assert(t.last() == parts[i as int]);
            assert(trim(t.last()) == cs@.subrange(x as int, y as int));
        }
        if x < y {
            let name = string_of(cs.as_slice(), x, y);
            out.push(name);
            proof {
                assert(new_tag_of(t.last()) == Some(name@));
                assert(out@.len() == prev.len() + 1);
                assert forall|k: int| 0 <= k < prev.len() + 1 implies out.deep_view()[k] == (prev
                    + seq![name@])[k] by {
                    if k < prev.len() {
                        assert(out.deep_view()[k] == prev[k]);
                    }
                }
                assert(out.deep_view() =~= prev + seq![name@]);
            }
        } else {
            assert(new_tag_of(t.last()) is None);
        }
        i += 1;
    }
    assert(parts.take(pieces@.len() as int) =~= parts);
    out
}

impl BookmarkAdd {
    /// The request to add the bookmark of a submitted form: no category reads
    /// as category 0.
    pub fn from_add_form(value: AddBookmarkForm) -> (r: Self)
        ensures
            r.title == value.title,
            r.url == value.url,
            r.cover_image == value.cover_image,
            r.desc == value.desc,
            r.category_id == value.category_id.unwrap_or(0i32),
            r.tags == value.tag_ids,
            r.new_tags.deep_view() == new_tag_names(value.new_tags@),
    {
        let new_tags = parse_new_tags(&value.new_tags);
        BookmarkAdd {
            title: value.title,
            url: value.url,
            cover_image: value.cover_image,
            desc: value.desc,
            category_id: value.category_id.unwrap_or(0),
            tags: value.tag_ids,
            new_tags,
        }
    }
}

impl BookmarkUpdate {
    /// The request to update a bookmark from a submitted edit form.
    pub fn from_edit_form(value: EditBookmarkForm) -> (r: Self)
        ensures
            r.id == value.id,
            r.title == value.title,
            r.url == value.url,
            r.cover_image == value.cover_image,
            r.desc == value.desc,
            r.category_id == value.category_id.unwrap_or(0i32),
            r.tags == value.tag_ids,
            r.new_tags.deep_view() == new_tag_names(value.new_tags@),
    {
        let new_tags = parse_new_tags(&value.new_tags);
        BookmarkUpdate {
            id: value.id,
            title: value.title,
            url: value.url,
            cover_image: value.cover_image,
            desc: value.desc,
            category_id: value.category_id.unwrap_or(0),
            tags: value.tag_ids,
            new_tags,
        }
    }
}

impl BookmarkBatchAdd {
    /// The import request of one imported bookmark, with no description.
    pub fn from_import_form(value: BookmarkImportForm) -> (r: Self)
        ensures
            r.title == value.title,
            r.url == value.url,
            r.cover_image == value.cover_image,
            r.desc@ == Seq::<char>::empty(),
            r.category == value.category,
    {
        BookmarkBatchAdd {
            title: value.title,
            url: value.url,
            cover_image: value.cover_image,
            desc: String::new(),
            category: value.category,
        }
    }
}

/// A message, when `cond` holds.
pub open spec fn msg_if(cond: bool, msg: Seq<char>) -> Option<Seq<char>> {
    if cond {
        Some(msg)
    } else {
        None
    }
}

/// The checks of a bookmark form: title, URL and cover image must not be
/// blank, and a category must be chosen. The flag tells whether any failed.
pub fn validate_bookmark_form(form: &ValidateForm) -> (r: (BookmarkFormErrors, bool))
    ensures
        r.0.title.deep_view() == msg_if(trim(form.title@).len() == 0, "标题不能为空"@),
        r.0.url.deep_view() == msg_if(trim(form.url@).len() == 0, "URL不能为空"@),
        r.0.cover_image.deep_view() == msg_if(
            trim(form.cover_image@).len() == 0,
            "封面图片不能为空"@,
        ),
        r.0.category_id.deep_view() == msg_if(form.category_id is None, "请选择分类"@),
        r.0.general is None,
        r.1 == (trim(form.title@).len() == 0 || trim(form.url@).len() == 0 || trim(
            form.cover_image@,
        ).len() == 0 || form.category_id is None),
{
    let mut errors = BookmarkFormErrors::default();
    if is_blank(form.title.as_str()) {
        errors.title = Some(String::from_str("标题不能为空"));
    }
    if is_blank(form.url.as_str()) {
        errors.url = Some(String::from_str("URL不能为空"));
    }
    if is_blank(form.cover_image.as_str()) {
        errors.cover_image = Some(String::from_str("封面图片不能为空"));
    }
    if form.category_id.is_none() {
        errors.category_id = Some(String::from_str("请选择分类"));
    }
    let has_errors = errors.title.is_some() || errors.url.is_some() || errors.cover_image.is_some()
        || errors.category_id.is_some();
    (errors, has_errors)
}

/// The add page.
#[derive(Debug, Clone)]
pub struct AddBookmarkTemplate {
    pub categories: Vec<Category>,
    pub tags: Vec<Tag>,
    pub errors: BookmarkFormErrors,
    pub title: String,
    pub url: String,
    pub cover_image: String,
    pub desc: String,
    pub category_id: Option<i32>,
    pub selected_tag_ids: Vec<i32>,
    pub new_tags: String,
    pub success_msg: Option<String>,
}

impl AddBookmarkTemplate {
    pub fn is_category_selected(&self, cat_id: &i32) -> (r: bool)
        ensures
            r == (self.category_id == Some(*cat_id)),
    {
        match self.category_id {
            Some(id) => id == *cat_id,
            None => false,
        }
    }

    pub fn is_tag_selected(&self, tag_id: &i32) -> (r: bool)
        ensures
            r == self.selected_tag_ids@.contains(*tag_id),
    {
        contains_i32(&self.selected_tag_ids, *tag_id)
    }
}

/// The edit page.
#[derive(Debug, Clone)]
pub struct EditBookmarkTemplate {
    pub categories: Vec<Category>,
    pub tags: Vec<Tag>,
    pub errors: BookmarkFormErrors,
    pub id: i32,
    pub title: String,
    pub url: String,
    pub cover_image: String,
    pub desc: String,
    pub category_id: Option<i32>,
    pub selected_tag_ids: Vec<i32>,
    pub new_tags: String,
    pub success_msg: Option<String>,
}

impl EditBookmarkTemplate {
    pub fn is_category_selected(&self, cat_id: &i32) -> (r: bool)
        ensures
            r == (self.category_id == Some(*cat_id)),
    {
        match self.category_id {
            Some(id) => id == *cat_id,
            None => false,
        }
    }

    pub fn is_tag_selected(&self, tag_id: &i32) -> (r: bool)
        ensures
            r == self.selected_tag_ids@.contains(*tag_id),
    {
        contains_i32(&self.selected_tag_ids, *tag_id)
    }
}

/// The id of the first category, if any.
pub open spec fn first_category_id(categories: Seq<Category>) -> Option<i32> {
    if categories.len() > 0 {
        Some(categories[0].id)
    } else {
        None
    }
}

/// `t` is the empty add form, preset to the first category.
pub open spec fn is_blank_add_page(
    t: AddBookmarkTemplate,
    categories: Vec<Category>,
    tags: Vec<Tag>,
) -> bool {
    &&& t.categories == categories
    &&& t.tags == tags
    &&& t.errors.title is None && t.errors.url is None && t.errors.cover_image is None
        && t.errors.category_id is None && t.errors.general is None
    &&& t.title@.len() == 0 && t.url@.len() == 0 && t.cover_image@.len() == 0 && t.desc@.len()
        == 0 && t.new_tags@.len() == 0
    &&& t.category_id == first_category_id(categories@)
    &&& t.selected_tag_ids@.len() == 0
}

fn blank_add_page(categories: Vec<Category>, tags: Vec<Tag>, success_msg: Option<String>) -> (r:
    AddBookmarkTemplate)
    ensures
        is_blank_add_page(r, categories, tags),
        r.success_msg == success_msg,
{
    let category_id = if categories.len() > 0 {
        Some(categories[0].id)
    } else {
        None
    };
    AddBookmarkTemplate {
        categories,
        tags,
        errors: BookmarkFormErrors::default(),
        title: String::new(),
        url: String::new(),
        cover_image: String::new(),
        desc: String::new(),
        category_id,
        selected_tag_ids: Vec::new(),
        new_tags: String::new(),
        success_msg,
    }
}

/// The add page as first shown: an empty form with the first category
/// chosen.
pub fn add_form_page(categories: Vec<Category>, tags: Vec<Tag>) -> (r: AddBookmarkTemplate)
    ensures
        is_blank_add_page(r, categories, tags),
        r.success_msg is None,
{
    blank_add_page(categories, tags, None)
}

/// How an add submission went past the form checks.
pub enum AddOutcome {
    /// The form failed its checks; nothing was stored.
    Invalid,
    /// The bookmark was stored; the tags as they now are.
    Saved(Vec<Tag>),
    /// The store refused the bookmark.
    SaveFailed,
}

/// The add page after a submission. A stored bookmark gives an empty form
/// with the refreshed tags and the message `添加成功`; otherwise the form is
/// shown again as typed, with the checks' problems, and a store failure adds
/// the general problem `添加失败，请稍后重试`.
pub fn add_bookmark_page(
    categories: Vec<Category>,
    tags: Vec<Tag>,
    form: AddBookmarkForm,
    errors: BookmarkFormErrors,
    outcome: AddOutcome,
) -> (r: AddBookmarkTemplate)
    ensures
        match outcome {
            AddOutcome::Saved(fresh) => is_blank_add_page(r, categories, fresh)
                && r.success_msg.deep_view() == Some("添加成功"@),
            _ => {
                &&& r.categories == categories
                &&& r.tags == tags
                &&& r.title == form.title && r.url == form.url && r.cover_image == form.cover_image
                    && r.desc == form.desc && r.new_tags == form.new_tags
                &&& r.category_id == form.category_id
                &&& r.selected_tag_ids == form.tag_ids
                &&& r.success_msg is None
                &&& r.errors.title == errors.title && r.errors.url == errors.url
                    && r.errors.cover_image == errors.cover_image && r.errors.category_id
                    == errors.category_id
                &&& r.errors.general.deep_view() == match outcome {
                    AddOutcome::SaveFailed => Some("添加失败，请稍后重试"@),
                    _ => errors.general.deep_view(),
                }
            },
        },
{
    let errors = match outcome {
        AddOutcome::Saved(fresh) => {
            return blank_add_page(categories, fresh, Some(String::from_str("添加成功")));
        },
        AddOutcome::SaveFailed => BookmarkFormErrors {
            title: errors.title,
            url: errors.url,
            cover_image: errors.cover_image,
            category_id: errors.category_id,
            general: Some(String::from_str("添加失败，请稍后重试")),
        },
        AddOutcome::Invalid => errors,
    };
    AddBookmarkTemplate {
        categories,
        tags,
        errors,
        title: form.title,
        url: form.url,
        cover_image: form.cover_image,
        desc: form.desc,
        category_id: form.category_id,
        selected_tag_ids: form.tag_ids,
        new_tags: form.new_tags,
        success_msg: None,
    }
}

/// The edit page of a stored bookmark, with its current tags selected.
pub fn edit_form_page(
    bookmark: Bookmark,
    categories: Vec<Category>,
    tags: Vec<Tag>,
    selected_tag_ids: Vec<i32>,
) -> (r: EditBookmarkTemplate)
    ensures
        r.categories == categories && r.tags == tags,
        r.id == bookmark.id && r.title == bookmark.title && r.url == bookmark.url
            && r.cover_image == bookmark.cover_image,
        r.desc@.len() == 0 && r.new_tags@.len() == 0,
        r.category_id == Some(bookmark.category_id),
        r.selected_tag_ids == selected_tag_ids,
        r.success_msg is None,
        r.errors.title is None && r.errors.url is None && r.errors.cover_image is None
            && r.errors.category_id is None && r.errors.general is None,
{
    EditBookmarkTemplate {
        categories,
        tags,
        errors: BookmarkFormErrors::default(),
        id: bookmark.id,
        title: bookmark.title,
        url: bookmark.url,
        cover_image: bookmark.cover_image,
        desc: String::new(),
        category_id: Some(bookmark.category_id),
        selected_tag_ids,
        new_tags: String::new(),
        success_msg: None,
    }
}

/// What an edit submission ends in: `saved` is the store's answer, `None`
/// when the form failed its checks. A stored change goes home; otherwise the
/// form is shown again as typed, a store failure adding the general problem
/// `修改失败，请稍后重试`.
pub fn edit_bookmark_outcome(
    categories: Vec<Category>,
    tags: Vec<Tag>,
    form: EditBookmarkForm,
    errors: BookmarkFormErrors,
    saved: Option<bool>,
) -> (r: PageResult<EditBookmarkTemplate>)
    ensures
        saved == Some(true) ==> (r matches PageResult::Redirect(p) && p@ == "/"@),
        saved != Some(true) ==> (r matches PageResult::RenderTemplate(t) && {
            &&& t.categories == categories
            &&& t.tags == tags
            &&& t.id == form.id && t.title == form.title && t.url == form.url && t.cover_image
                == form.cover_image && t.desc == form.desc && t.new_tags == form.new_tags
            &&& t.category_id == form.category_id
            &&& t.selected_tag_ids == form.tag_ids
            &&& t.success_msg is None
            &&& t.errors.title == errors.title && t.errors.url == errors.url
                && t.errors.cover_image == errors.cover_image && t.errors.category_id
                == errors.category_id
            &&& t.errors.general.deep_view() == if saved == Some(false) {
                Some("修改失败，请稍后重试"@)
            } else {
                errors.general.deep_view()
            }
        }),
{
    let errors = match saved {
        Some(true) => {
            return PageResult::Redirect(String::from_str("/"));
        },
        Some(false) => BookmarkFormErrors {
            title: errors.title,
            url: errors.url,
            cover_image: errors.cover_image,
            category_id: errors.category_id,
            general: Some(String::from_str("修改失败，请稍后重试")),
        },
        None => errors,
    };
    PageResult::RenderTemplate(
        EditBookmarkTemplate {
            categories,
            tags,
            errors,
            id: form.id,
            title: form.title,
            url: form.url,
            cover_image: form.cover_image,
            desc: form.desc,
            category_id: form.category_id,
            selected_tag_ids: form.tag_ids,
            new_tags: form.new_tags,
            success_msg: None,
        },
    )
}

/// Each new tag name is one comma separated piece of the typed text,
/// trimmed, with its characters as typed; no empty name is kept; and every
/// piece that is not blank gives a name.
pub proof fn lemma_new_tags_are_typed_pieces(s: Seq<char>)
    ensures
        forall|i: int|
            0 <= i < new_tag_names(s).len() ==> (#[trigger] new_tag_names(s)[i]).len() > 0 && exists|j: int|
                0 <= j < split_char(s, ',').len() && new_tag_names(s)[i] == trim(#[trigger] split_char(s, ',')[j]),
        forall|j: int|
            0 <= j < split_char(s, ',').len() && trim(#[trigger] split_char(s, ',')[j]).len() > 0
                ==> new_tag_names(s).contains(trim(split_char(s, ',')[j])),
{
    let ps = split_char(s, ',');
    let f = |p: Seq<char>| new_tag_of(p);
    assert(new_tag_names(s) == ps.filter_map(f));
    assert forall|i: int| 0 <= i < new_tag_names(s).len() implies (#[trigger] new_tag_names(s)[i]).len() > 0
        && exists|j: int| 0 <= j < ps.len() && new_tag_names(s)[i] == trim(#[trigger] ps[j]) by {
        let x = new_tag_names(s)[i];
        assert(ps.filter_map(f).contains(x));
        ps.lemma_filter_map_contains(f, x);
        let t = choose|t: Seq<char>| #[trigger] ps.contains(t) && f(t) == Some(x);
        let j = choose|j: int| 0 <= j < ps.len() && ps[j] == t;
        assert(trim(ps[j]) == x);
    }
    assert forall|j: int| 0 <= j < ps.len() && trim(#[trigger] ps[j]).len() > 0 implies new_tag_names(s).contains(
        trim(ps[j]),
    ) by {
        lemma_filter_map_keeps(ps, f, j);
    }
}

/// An element that `f` maps to a value gives that value in the filter map.
proof fn lemma_filter_map_keeps(ps: Seq<Seq<char>>, f: spec_fn(Seq<char>) -> Option<Seq<char>>, j: int)
    requires
        0 <= j < ps.len(),
        f(ps[j]) is Some,
    ensures
        ps.filter_map(f).contains(f(ps[j])->0),
    decreases ps.len(),
{
    let rest = ps.drop_last();
    if j == ps.len() - 1 {
        let fm = rest.filter_map(f) + seq![f(ps[j])->0];
        assert(ps.filter_map(f) == fm);
        assert(fm[fm.len() - 1] == f(ps[j])->0);
    } else {
        assert(rest[j] == ps[j]);
        lemma_filter_map_keeps(rest, f, j);
        let y = f(ps[j])->0;
        let k = choose|k: int| 0 <= k < rest.filter_map(f).len() && rest.filter_map(f)[k] == y;
        match f(ps.last()) {
            Some(v) => {
                assert((rest.filter_map(f) + seq![v])[k] == y);
            },
            None => {},
        }
    }
}

} // verus!
