//! The bookmark tables: rows as read, the listing query, and the plans of
//! the statements that write bookmarks.
use crate::domain::bookmark::models::{
    Bookmark as DBookmark, BookmarkBatchAdd, BookmarkAdd, BookmarkUpdate, Category as DCategory,
    CategoryWithBookmarkCount as Cwbm, QueryArgs, Tag as DTag,
};
use crate::utils::text::{chars_of, nat_decimal, push_decimal, string_of, trim, trim_bounds};
use sqlx::{Postgres, QueryBuilder};
use vstd::prelude::*;

verus! {

/// A category row with the number of bookmarks filed under it.
#[derive(Debug, Clone)]
pub struct CategoryWithBookmarkCount {
    pub id: i32,
    pub name: String,
    pub bookmark_count: i64,
}

impl From<CategoryWithBookmarkCount> for Cwbm {
    fn from(value: CategoryWithBookmarkCount) -> (r: Self) {
        Cwbm { id: value.id, name: value.name, bookmark_count: value.bookmark_count }
    }
}

impl vstd::std_specs::convert::FromSpecImpl<CategoryWithBookmarkCount> for Cwbm {
    open spec fn obeys_from_spec() -> bool {
        true
    }

    open spec fn from_spec(v: CategoryWithBookmarkCount) -> Cwbm {
        Cwbm { id: v.id, name: v.name, bookmark_count: v.bookmark_count }
    }
}

/// A category row.
#[derive(Debug, Clone)]
pub struct Category {
    pub id: i32,
    pub name: String,
}

impl From<Category> for DCategory {
    fn from(value: Category) -> (r: Self) {
        DCategory { id: value.id, name: value.name }
    }
}

impl vstd::std_specs::convert::FromSpecImpl<Category> for DCategory {
    open spec fn obeys_from_spec() -> bool {
        true
    }

    open spec fn from_spec(v: Category) -> DCategory {
        DCategory { id: v.id, name: v.name }
    }
}

/// A tag row.
#[derive(Debug, Clone)]
pub struct Tag {
    pub id: i32,
    pub name: String,
}

impl From<Tag> for DTag {
    fn from(value: Tag) -> (r: Self) {
        DTag { id: value.id, name: value.name }
    }
}

impl vstd::std_specs::convert::FromSpecImpl<Tag> for DTag {
    open spec fn obeys_from_spec() -> bool {
        true
    }

    open spec fn from_spec(v: Tag) -> DTag {
        DTag { id: v.id, name: v.name }
    }
}

/// A bookmark row with its tags; `created_at` in seconds since the epoch.
#[derive(Debug, Clone)]
pub struct Bookmark {
    pub id: i32,
    pub title: String,
    pub url: String,
    pub cover_image: String,
    pub tags: Vec<Tag>,
    pub category_id: i32,
    pub created_at: i64,
}

/// The domain tag of a tag row.
pub open spec fn domain_tag(t: Tag) -> DTag {
    DTag { id: t.id, name: t.name }
}

impl Bookmark {
    /// The domain bookmark of a row: the same fields, each tag converted.
    pub fn into_domain(self) -> (r: DBookmark)
        ensures
            r.id == self.id,
            r.title == self.title,
            r.url == self.url,
            r.cover_image == self.cover_image,
            r.tags@ == self.tags@.map_values(|t: Tag| domain_tag(t)),
            r.category_id == self.category_id,
            r.created_at == self.created_at,
    {
        let mut tags: Vec<DTag> = Vec::new();
        let mut i: usize = 0;
        while i < self.tags.len()
            invariant
                i <= self.tags@.len(),
                tags@ == self.tags@.take(i as int).map_values(|t: Tag| domain_tag(t)),
            decreases self.tags.len() - i,
        {
            let t = &self.tags[i];
            tags.push(DTag { id: t.id, name: t.name.clone() });
            assert(self.tags@.take(i + 1) =~= self.tags@.take(i as int).push(self.tags@[i as int]));
            assert(tags@ =~= self.tags@.take(i + 1).map_values(|t: Tag| domain_tag(t)));
            i += 1;
        }
        assert(self.tags@.take(self.tags@.len() as int) =~= self.tags@);
        DBookmark {
            id: self.id,
            title: self.title,
            url: self.url,
            cover_image: self.cover_image,
            tags,
            category_id: self.category_id,
            created_at: self.created_at,
        }
    }
}

/// A value bound to a query.
pub enum SqlValue {
    Int(i32),
    Text(Seq<char>),
    IntList(Seq<i32>),
}

/// A query under construction with sqlx's `QueryBuilder`, as the listing
/// query hands it to the database.
#[verifier::external_body]
pub struct SqlQuery {
    pub builder: QueryBuilder<'static, Postgres>,
}

/// The SQL text that a query holds.
pub uninterp spec fn query_text(q: SqlQuery) -> Seq<char>;

/// The values bound to a query, in the order of their placeholders.
pub uninterp spec fn query_args(q: SqlQuery) -> Seq<SqlValue>;

/// The placeholder of the `n`-th bound value: `$n`.
pub open spec fn placeholder(n: nat) -> Seq<char> {
    seq!['$'] + nat_decimal(n)
}

/// Largest text, in characters, that a bound value may hold: its UTF-8 form,
/// at most four bytes per character, must stay within the four-byte length
/// that Postgres puts before it, so this many characters always fit.
pub const MAX_BOUND_TEXT: usize = 536_870_911;

/// Largest list of integers that a bound value may hold: its encoding, 20
/// bytes of header and 8 bytes per element, must stay within the same
/// four-byte length.
pub const MAX_BOUND_LIST: usize = 268_435_453;

/// Calls `QueryBuilder::new`: the query holds `init` and no value.
#[verifier::external_body]
fn query_new(init: &str) -> (q: SqlQuery)
    ensures
        query_text(q) == init@,
        query_args(q) == Seq::<SqlValue>::empty(),
{
    SqlQuery { builder: QueryBuilder::new(init) }
}

/// Calls `QueryBuilder::push`: the text is appended as it is.
#[verifier::external_body]
fn query_push(q: &mut SqlQuery, text: &str)
    ensures
        query_text(*final(q)) == query_text(*old(q)) + text@,
        query_args(*final(q)) == query_args(*old(q)),
{
    q.builder.push(text);
}

/// Calls `QueryBuilder::push_bind` with an integer: the value is bound and
/// its placeholder, `$` and the number of values bound so far, appended.
#[verifier::external_body]
fn query_bind_int(q: &mut SqlQuery, v: i32)
    ensures
        query_text(*final(q)) == query_text(*old(q)) + placeholder(query_args(*old(q)).len() + 1),
        query_args(*final(q)) == query_args(*old(q)).push(SqlValue::Int(v)),
{
    q.builder.push_bind(v);
}

/// Calls `QueryBuilder::push_bind` with a text, as `query_bind_int` does.
#[verifier::external_body]
fn query_bind_text(q: &mut SqlQuery, v: String)
    requires
        v@.len() <= MAX_BOUND_TEXT,
    ensures
        query_text(*final(q)) == query_text(*old(q)) + placeholder(query_args(*old(q)).len() + 1),
        query_args(*final(q)) == query_args(*old(q)).push(SqlValue::Text(v@)),
{
    q.builder.push_bind(v);
}

/// Calls `QueryBuilder::push_bind` with a list of integers, as
/// `query_bind_int` does.
#[verifier::external_body]
fn query_bind_int_list(q: &mut SqlQuery, v: Vec<i32>)
    requires
        v@.len() <= MAX_BOUND_LIST,
    ensures
        query_text(*final(q)) == query_text(*old(q)) + placeholder(query_args(*old(q)).len() + 1),
        query_args(*final(q)) == query_args(*old(q)).push(SqlValue::IntList(v@)),
{
    q.builder.push_bind(v);
}

/// The start of the listing query: bookmarks with their tags as JSON.
pub const LIST_SELECT: &'static str = "\n            SELECT\n                b.id,\n                b.title,\n                b.url,\n                b.cover_image,\n                b.desc,\n                b.category_id,\n                COALESCE(tags.tags, '[]') AS tags,\n                b.created_at,\n                b.updated_at\n            FROM bookmarks b\n            LEFT JOIN LATERAL (\n                SELECT json_agg(\n                    json_build_object('id', t.id, 'name', t.name)\n                    ORDER BY t.id\n                ) AS tags\n                FROM bookmark_tags nt\n                JOIN tags t ON t.id = nt.tag_id\n                WHERE nt.bookmark_id = b.id\n            ) tags ON true\n            ";

/// The start of the tag filter: a bookmark carries one of the given tags.
pub const TAG_EXISTS: &'static str = "\n                EXISTS (\n                    SELECT 1\n                    FROM bookmark_tags nt2\n                    WHERE nt2.bookmark_id = b.id\n                    AND nt2.tag_id = ANY(\n                ";

/// The end of the tag filter, after the placeholder of the tag list.
pub const TAG_EXISTS_END: &'static str = "::int[]) )";

/// The order of the listing.
pub const LIST_ORDER: &'static str = " ORDER BY b.created_at DESC, b.category_id ASC, b.title ASC";

/// The page that a query asks for, at least the first.
pub open spec fn page_of(q: QueryArgs) -> int {
    if q.page < 1 { 1 } else { q.page as int }
}

/// The page size that a query asks for, between 1 and 100.
pub open spec fn page_size_of(q: QueryArgs) -> int {
    if q.page_size < 1 { 1 } else if q.page_size > 100 { 100 } else { q.page_size as int }
}

/// How many bookmarks the pages before the asked one hold.
pub open spec fn offset_of(q: QueryArgs) -> int {
    (page_of(q) - 1) * page_size_of(q)
}

/// The keyword of a query, trimmed; empty where there is none.
pub open spec fn keyword_of(q: QueryArgs) -> Seq<char> {
    match q.keyword {
        Some(k) => trim(k@),
        None => Seq::<char>::empty(),
    }
}

/// Whether the query filters by title.
pub open spec fn has_keyword(q: QueryArgs) -> bool {
    keyword_of(q).len() > 0
}

/// Whether the query filters by tags: a list of at least one tag.
pub open spec fn has_tags(q: QueryArgs) -> bool {
    q.tags matches Some(t) && t@.len() > 0
}

/// The value that the category filter binds, where the query has one.
pub open spec fn category_args(q: QueryArgs) -> Seq<SqlValue> {
    match q.category_id {
        Some(c) => seq![SqlValue::Int(c)],
        None => Seq::<SqlValue>::empty(),
    }
}

/// The value that the title filter binds: the pattern `%keyword%`.
pub open spec fn keyword_args(q: QueryArgs) -> Seq<SqlValue> {
    if has_keyword(q) {
        seq![SqlValue::Text(seq!['%'] + keyword_of(q) + seq!['%'])]
    } else {
        Seq::<SqlValue>::empty()
    }
}

/// The value that the tag filter binds: the tag list.
pub open spec fn tag_args(q: QueryArgs) -> Seq<SqlValue> {
    match q.tags {
        Some(t) => if t@.len() > 0 { seq![SqlValue::IntList(t@)] } else { Seq::<SqlValue>::empty() },
        None => Seq::<SqlValue>::empty(),
    }
}

/// The values that the filters bind, in the order of the filters.
pub open spec fn filter_args(q: QueryArgs) -> Seq<SqlValue> {
    category_args(q) + keyword_args(q) + tag_args(q)
}

/// The word that starts a filter: `WHERE` for the first, `AND` after.
pub open spec fn filter_joint(has_where: bool) -> Seq<char> {
    if has_where { " AND "@ } else { " WHERE "@ }
}

/// The category filter.
pub open spec fn category_sql(q: QueryArgs) -> Seq<char> {
    if q.category_id is Some { " WHERE b.category_id = "@ + placeholder(1) } else { Seq::<char>::empty() }
}

/// The title filter.
pub open spec fn keyword_sql(q: QueryArgs) -> Seq<char> {
    if has_keyword(q) {
        filter_joint(q.category_id is Some) + " b.title ILIKE "@ + placeholder(category_args(q).len() + 1)
    } else {
        Seq::<char>::empty()
    }
}

/// The tag filter.
pub open spec fn tag_sql(q: QueryArgs) -> Seq<char> {
    if has_tags(q) {
        filter_joint(q.category_id is Some || has_keyword(q)) + TAG_EXISTS@ + placeholder(
            category_args(q).len() + keyword_args(q).len() + 1,
        ) + TAG_EXISTS_END@
    } else {
        Seq::<char>::empty()
    }
}

/// The filter clauses; the first starts with `WHERE`, the others with `AND`.
pub open spec fn filter_sql(q: QueryArgs) -> Seq<char> {
    category_sql(q) + keyword_sql(q) + tag_sql(q)
}

/// The listing query: filters, order, then the page as `LIMIT` and `OFFSET`.
pub open spec fn listing_sql(q: QueryArgs) -> Seq<char> {
    let n = filter_args(q).len();
    LIST_SELECT@ + filter_sql(q) + LIST_ORDER@ + " LIMIT "@ + placeholder(n + 1) + " OFFSET "@ + placeholder(n + 2)
}

/// The values bound to the listing query.
pub open spec fn listing_args(q: QueryArgs) -> Seq<SqlValue> {
    filter_args(q) + seq![SqlValue::Int(page_size_of(q) as i32), SqlValue::Int(offset_of(q) as i32)]
}

/// Whether a query's page and size can be turned into an offset, and its
/// keyword and tags into bound values.
pub open spec fn listing_fits(q: QueryArgs) -> bool {
    &&& offset_of(q) <= i32::MAX
    &&& (q.keyword matches Some(k) ==> k@.len() + 2 <= MAX_BOUND_TEXT)
    &&& (q.tags matches Some(t) ==> t@.len() <= MAX_BOUND_LIST)
}

/// The keyword of a query, trimmed.
fn trimmed_keyword(query: &QueryArgs) -> (r: String)
    ensures
        r@ == keyword_of(*query),
        query.keyword matches Some(k) ==> r@.len() <= k@.len(),
{
    match &query.keyword {
        Some(k) => {
            let cs = chars_of(k.as_str());
            let (a, b) = trim_bounds(cs.as_slice(), 0, cs.len());
            assert(cs@.subrange(0, cs@.len() as int) =~= cs@);
            string_of(cs.as_slice(), a, b)
        },
        None => String::new(),
    }
}

/// Appends the category filter.
fn push_category_filter(q: &mut SqlQuery, query: &QueryArgs)
    requires
        query_args(*old(q)).len() == 0,
    ensures
        query_text(*final(q)) == query_text(*old(q)) + category_sql(*query),
        query_args(*final(q)) == category_args(*query),
{
    match query.category_id {
        Some(id) => {
            query_push(q, " WHERE b.category_id = ");
            query_bind_int(q, id);
            assert(query_args(*q) =~= category_args(*query));
        },
        None => {
            assert(query_text(*q) =~= query_text(*q) + category_sql(*query));
        },
    }
}

/// Appends the title filter.
fn push_keyword_filter(q: &mut SqlQuery, query: &QueryArgs)
    requires
        listing_fits(*query),
        query_args(*old(q)) == category_args(*query),
    ensures
        query_text(*final(q)) == query_text(*old(q)) + keyword_sql(*query),
        query_args(*final(q)) == category_args(*query) + keyword_args(*query),
{
    let keyword = trimmed_keyword(query);
    if keyword.unicode_len() > 0 {
        if query.category_id.is_some() {
            query_push(q, " AND ");
        } else {
            query_push(q, " WHERE ");
        }
        query_push(q, " b.title ILIKE ");
        let mut pattern = String::from_str("%");
        pattern.append(keyword.as_str());
        pattern.append("%");
        proof {
            reveal_strlit("%");
        }
        assert(pattern@ =~= seq!['%'] + keyword_of(*query) + seq!['%']);
        query_bind_text(q, pattern);
        assert(query_text(*q) =~= query_text(*old(q)) + keyword_sql(*query));
        assert(query_args(*q) =~= category_args(*query) + keyword_args(*query));
    } else {
        assert(query_text(*q) =~= query_text(*q) + keyword_sql(*query));
        assert(query_args(*q) =~= category_args(*query) + keyword_args(*query));
    }
}

/// Appends the tag filter.
fn push_tag_filter(q: &mut SqlQuery, query: &QueryArgs)
    requires
        listing_fits(*query),
        query_args(*old(q)) == category_args(*query) + keyword_args(*query),
    ensures
        query_text(*final(q)) == query_text(*old(q)) + tag_sql(*query),
        query_args(*final(q)) == filter_args(*query),
{
    let mut pushed = false;
    match &query.tags {
        Some(tag_ids) => {
            if tag_ids.len() > 0 {
                let has_where = query.category_id.is_some() || trimmed_keyword(query).unicode_len() > 0;
                if has_where {
                    query_push(q, " AND ");
                } else {
                    query_push(q, " WHERE ");
                }
                query_push(q, TAG_EXISTS);
                let ids = tag_ids.clone();
                assert(ids@ =~= tag_ids@);
                query_bind_int_list(q, ids);
                query_push(q, TAG_EXISTS_END);
                pushed = true;
                assert(query_text(*q) =~= query_text(*old(q)) + tag_sql(*query));
                assert(query_args(*q) =~= filter_args(*query));
            }
        },
        None => {},
    }
    if !pushed {
        assert(query_text(*q) =~= query_text(*q) + tag_sql(*query));
        assert(query_args(*q) =~= filter_args(*query));
    }
}

/// The query that lists a page of bookmarks: by category, by title and by
/// tags where the query asks, newest first.
pub fn listing_query(query: &QueryArgs) -> (r: SqlQuery)
    requires
        listing_fits(*query),
    ensures
        query_text(r) == listing_sql(*query),
        query_args(r) == listing_args(*query),
{
    let page: i32 = if query.page < 1 { 1 } else { query.page };
    let page_size: i32 = if query.page_size < 1 { 1 } else if query.page_size > 100 { 100 } else { query.page_size };
    assert((page - 1) * page_size == offset_of(*query));
    let offset: i32 = (page - 1) * page_size;
    let mut q = query_new(LIST_SELECT);
    push_category_filter(&mut q, query);
    push_keyword_filter(&mut q, query);
    push_tag_filter(&mut q, query);
    assert(query_text(q) =~= LIST_SELECT@ + filter_sql(*query));
    query_push(&mut q, LIST_ORDER);
    query_push(&mut q, " LIMIT ");
    query_bind_int(&mut q, page_size);
    query_push(&mut q, " OFFSET ");
    query_bind_int(&mut q, offset);
    assert(query_text(q) =~= listing_sql(*query));
    assert(query_args(q) =~= listing_args(*query));
    q
}

/// One statement of a bookmark write, in the order that its transaction
/// runs them.
#[derive(Debug, Clone)]
pub enum WriteStep {
    /// Inserts the bookmark, or updates the one with the same URL, and
    /// reads its id.
    UpsertBookmark,
    /// Updates the fields of the bookmark with the given id.
    UpdateBookmark,
    /// Removes every tag of the bookmark.
    ClearTags,
    /// Tags the bookmark with an existing tag.
    LinkTag(i32),
    /// Creates the tag of that name unless it exists, then tags the bookmark
    /// with it.
    LinkNewTag(String),
}

/// The tagging statements of a write: the existing tags in order, then the
/// new ones in order.
pub open spec fn tag_steps(tags: Seq<i32>, new_tags: Seq<String>) -> Seq<WriteStep> {
    tags.map_values(|t: i32| WriteStep::LinkTag(t)) + new_tags.map_values(|n: String| WriteStep::LinkNewTag(n))
}

/// Appends the tagging statements of a write.
fn push_tag_steps(steps: &mut Vec<WriteStep>, tags: &Vec<i32>, new_tags: &Vec<String>)
    ensures
        final(steps)@ == old(steps)@ + tag_steps(tags@, new_tags@),
{
    let ghost start = steps@;
    let mut i: usize = 0;
    while i < tags.len()
        invariant
            i <= tags@.len(),
            steps@ == start + tags@.take(i as int).map_values(|t: i32| WriteStep::LinkTag(t)),
        decreases tags.len() - i,
    {
        steps.push(WriteStep::LinkTag(tags[i]));
        assert(tags@.take(i + 1) =~= tags@.take(i as int).push(tags@[i as int]));
        assert(steps@ =~= start + tags@.take(i + 1).map_values(|t: i32| WriteStep::LinkTag(t)));
        i += 1;
    }
    assert(tags@.take(tags@.len() as int) =~= tags@);
    let ghost mid = steps@;
    let mut j: usize = 0;
    while j < new_tags.len()
        invariant
            j <= new_tags@.len(),
            steps@ == mid + new_tags@.take(j as int).map_values(|n: String| WriteStep::LinkNewTag(n)),
        decreases new_tags.len() - j,
    {
        steps.push(WriteStep::LinkNewTag(new_tags[j].clone()));
        assert(new_tags@.take(j + 1) =~= new_tags@.take(j as int).push(new_tags@[j as int]));
        assert(steps@ =~= mid + new_tags@.take(j + 1).map_values(|n: String| WriteStep::LinkNewTag(n)));
        j += 1;
    }
    assert(new_tags@.take(new_tags@.len() as int) =~= new_tags@);
    assert(steps@ =~= start + tag_steps(tags@, new_tags@));
}

/// The statements that add a bookmark: the bookmark first, then its tags.
pub fn add_bookmark_steps(bookmark: &BookmarkAdd) -> (r: Vec<WriteStep>)
    ensures
        r@ == seq![WriteStep::UpsertBookmark] + tag_steps(bookmark.tags@, bookmark.new_tags@),
{
    let mut steps: Vec<WriteStep> = Vec::new();
    steps.push(WriteStep::UpsertBookmark);
    push_tag_steps(&mut steps, &bookmark.tags, &bookmark.new_tags);
    assert(steps@ =~= seq![WriteStep::UpsertBookmark] + tag_steps(bookmark.tags@, bookmark.new_tags@));
    steps
}

/// The statements that update a bookmark: its fields, then its tags are
/// replaced by the given ones.
pub fn update_bookmark_steps(bookmark: &BookmarkUpdate) -> (r: Vec<WriteStep>)
    ensures
        r@ == seq![WriteStep::UpdateBookmark, WriteStep::ClearTags] + tag_steps(bookmark.tags@, bookmark.new_tags@),
{
    let mut steps: Vec<WriteStep> = Vec::new();
    steps.push(WriteStep::UpdateBookmark);
    steps.push(WriteStep::ClearTags);
    push_tag_steps(&mut steps, &bookmark.tags, &bookmark.new_tags);
    assert(steps@ =~= seq![WriteStep::UpdateBookmark, WriteStep::ClearTags] + tag_steps(bookmark.tags@, bookmark.new_tags@));
    steps
}

/// After an update, the bookmark carries exactly the given tags: the tags
/// are cleared before any is linked, and every given tag is linked.
pub proof fn lemma_update_replaces_tags(bookmark: BookmarkUpdate, steps: Seq<WriteStep>)
    requires
        steps == seq![WriteStep::UpdateBookmark, WriteStep::ClearTags] + tag_steps(bookmark.tags@, bookmark.new_tags@),
    ensures
        forall|i: int| 2 <= i < steps.len() ==> !(#[trigger] steps[i] is ClearTags),
        forall|k: int| 0 <= k < bookmark.tags@.len() ==> steps.contains(WriteStep::LinkTag(#[trigger] bookmark.tags@[k])),
        forall|k: int| 0 <= k < bookmark.new_tags@.len() ==> steps.contains(WriteStep::LinkNewTag(#[trigger] bookmark.new_tags@[k])),
        forall|i: int| 2 <= i < steps.len() ==> (#[trigger] steps[i] is LinkTag || steps[i] is LinkNewTag),
{
    let n = bookmark.tags@.len();
    assert forall|k: int| 0 <= k < n implies steps.contains(WriteStep::LinkTag(#[trigger] bookmark.tags@[k])) by {
        assert(steps[2 + k] == WriteStep::LinkTag(bookmark.tags@[k]));
    }
    assert forall|k: int| 0 <= k < bookmark.new_tags@.len() implies steps.contains(WriteStep::LinkNewTag(#[trigger] bookmark.new_tags@[k])) by {
        assert(steps[2 + n + k] == WriteStep::LinkNewTag(bookmark.new_tags@[k]));
    }
}

/// Whether some bookmark of `items` has the URL `url`.
pub open spec fn url_occurs(items: Seq<BookmarkBatchAdd>, url: Seq<char>) -> bool {
    exists|k: int| 0 <= k < items.len() && (#[trigger] items[k]).url@ == url
}

/// The bookmarks of an import, each URL once: of several bookmarks with one
/// URL the last one stays, in the order of the import.
pub open spec fn last_by_url(items: Seq<BookmarkBatchAdd>) -> Seq<BookmarkBatchAdd>
    decreases items.len(),
{
    if items.len() == 0 {
        items
    } else if url_occurs(items.drop_first(), items[0].url@) {
        last_by_url(items.drop_first())
    } else {
        seq![items[0]] + last_by_url(items.drop_first())
    }
}

/// A copy of a bookmark of an import.
fn copy_batch_add(b: &BookmarkBatchAdd) -> (r: BookmarkBatchAdd)
    ensures
        r == *b,
{
    BookmarkBatchAdd {
        title: b.title.clone(),
        url: b.url.clone(),
        cover_image: b.cover_image.clone(),
        desc: b.desc.clone(),
        category: b.category.clone(),
    }
}

/// Whether a bookmark after position `i` has the URL `url`.
fn url_after(items: &Vec<BookmarkBatchAdd>, i: usize, url: &Vec<char>) -> (r: bool)
    requires
        i <= items@.len(),
    ensures
        r == url_occurs(items@.skip(i as int), url@),
{
    let mut k: usize = i;
    while k < items.len()
        invariant
            i <= k <= items@.len(),
            forall|m: int| i <= m < k ==> (#[trigger] items@[m]).url@ != url@,
        decreases items.len() - k,
    {
        let other = chars_of(items[k].url.as_str());
        if crate::utils::text::slice_range_eq(other.as_slice(), 0, other.len(), url.as_slice(), 0, url.len()) {
            assert(other@.subrange(0, other@.len() as int) =~= other@);
            assert(url@.subrange(0, url@.len() as int) =~= url@);
            assert(items@.skip(i as int)[k - i] == items@[k as int]);
            return true;
        }
        assert(other@.subrange(0, other@.len() as int) =~= other@);
        assert(url@.subrange(0, url@.len() as int) =~= url@);
        k += 1;
    }
    assert forall|m: int| 0 <= m < items@.skip(i as int).len() implies (#[trigger] items@.skip(i as int)[m]).url@ != url@ by {
        assert(items@.skip(i as int)[m] == items@[i + m]);
    }
    false
}

/// The bookmarks of an import, each URL once, the last of each URL kept.
pub fn dedup_by_url(bookmarks: &Vec<BookmarkBatchAdd>) -> (r: Vec<BookmarkBatchAdd>)
    ensures
        r@ == last_by_url(bookmarks@),
{
    let mut kept: Vec<BookmarkBatchAdd> = Vec::new();
    let mut i: usize = bookmarks.len();
    assert(bookmarks@.skip(bookmarks@.len() as int) =~= Seq::<BookmarkBatchAdd>::empty());
    while i > 0
        invariant
            i <= bookmarks@.len(),
            kept@ == last_by_url(bookmarks@.skip(i as int)),
        decreases i,
    {
        i -= 1;
        let url = chars_of(bookmarks[i].url.as_str());
        let later = url_after(bookmarks, i + 1, &url);
        let ghost tail = bookmarks@.skip(i as int);
        assert(tail.drop_first() =~= bookmarks@.skip(i + 1));
        assert(tail[0] == bookmarks@[i as int]);
        if !later {
            kept.insert(0, copy_batch_add(&bookmarks[i]));
            assert(kept@ =~= seq![tail[0]] + last_by_url(tail.drop_first()));
        }
    }
    assert(bookmarks@.skip(0) =~= bookmarks@);
    kept
}

/// Each URL stays once after `dedup_by_url`, with the last bookmark that
/// carried it, and no other bookmark stays.
pub proof fn lemma_last_by_url(items: Seq<BookmarkBatchAdd>)
    ensures
        forall|x: int, y: int| 0 <= x < y < last_by_url(items).len() ==> (#[trigger] last_by_url(items)[x]).url@ != (#[trigger] last_by_url(items)[y]).url@,
        forall|k: int| 0 <= k < items.len() && !url_occurs(items.skip(k + 1), items[k].url@) ==> last_by_url(items).contains(#[trigger] items[k]),
        forall|k: int| 0 <= k < items.len() ==> url_occurs(last_by_url(items), (#[trigger] items[k]).url@),
        forall|x: int| 0 <= x < last_by_url(items).len() ==> items.contains(#[trigger] last_by_url(items)[x]),
    decreases items.len(),
{
    if items.len() > 0 {
        let rest = items.drop_first();
        lemma_last_by_url(rest);
        let lr = last_by_url(rest);
        let l = last_by_url(items);
        assert forall|k: int| 1 <= k < items.len() implies #[trigger] items.skip(k + 1) =~= rest.skip(k) by {}
        if url_occurs(rest, items[0].url@) {
            assert(l == lr);
            assert forall|k: int| 0 <= k < items.len() implies url_occurs(l, (#[trigger] items[k]).url@) by {
                if k == 0 {
                    let m = choose|m: int| 0 <= m < rest.len() && (#[trigger] rest[m]).url@ == items[0].url@;
                    assert(rest[m] == items[m + 1]);
                } else {
                    assert(rest[k - 1] == items[k]);
                }
            }
            assert forall|k: int| 0 <= k < items.len() && !url_occurs(items.skip(k + 1), items[k].url@) implies l.contains(#[trigger] items[k]) by {
                if k == 0 {
                    let m = choose|m: int| 0 <= m < rest.len() && (#[trigger] rest[m]).url@ == items[0].url@;
                    assert(items.skip(1)[m] == rest[m]);
                } else {
                    assert(rest[k - 1] == items[k]);
                }
            }
            assert forall|x: int| 0 <= x < l.len() implies items.contains(#[trigger] l[x]) by {
                let m = choose|m: int| 0 <= m < rest.len() && rest[m] == l[x];
                assert(items[m + 1] == rest[m]);
            }
        } else {
            assert(l == seq![items[0]] + lr);
            assert forall|x: int, y: int| 0 <= x < y < l.len() implies (#[trigger] l[x]).url@ != (#[trigger] l[y]).url@ by {
                if x == 0 {
                    assert(l[y] == lr[y - 1]);
                    let m = choose|m: int| 0 <= m < rest.len() && rest[m] == lr[y - 1];
                    if l[y].url@ == items[0].url@ {
                        assert(rest[m].url@ == items[0].url@);
                    }
                } else {
                    assert(l[x] == lr[x - 1] && l[y] == lr[y - 1]);
                }
            }
            assert forall|k: int| 0 <= k < items.len() implies url_occurs(l, (#[trigger] items[k]).url@) by {
                if k == 0 {
                    assert(l[0] == items[0]);
                } else {
                    assert(rest[k - 1] == items[k]);
                    let m = choose|m: int| 0 <= m < lr.len() && (#[trigger] lr[m]).url@ == rest[k - 1].url@;
                    assert(l[m + 1] == lr[m]);
                }
            }
            assert forall|k: int| 0 <= k < items.len() && !url_occurs(items.skip(k + 1), items[k].url@) implies l.contains(#[trigger] items[k]) by {
                if k == 0 {
                    assert(l[0] == items[0]);
                } else {
                    assert(rest[k - 1] == items[k]);
                    let m = choose|m: int| 0 <= m < lr.len() && lr[m] == rest[k - 1];
                    assert(l[m + 1] == lr[m]);
                }
            }
            assert forall|x: int| 0 <= x < l.len() implies items.contains(#[trigger] l[x]) by {
                if x == 0 {
                    assert(items[0] == l[0]);
                } else {
                    assert(l[x] == lr[x - 1]);
                    let m = choose|m: int| 0 <= m < rest.len() && rest[m] == lr[x - 1];
                    assert(items[m + 1] == rest[m]);
                }
            }
        }
    }
}

/// The id that the store gave the category `name`, read from the rows that
/// storing the categories returned; of rows with one name the last counts.
pub open spec fn category_id_in(rows: Seq<(i32, String)>, name: Seq<char>) -> Option<i32>
    decreases rows.len(),
{
    if rows.len() == 0 {
        None
    } else if rows.last().1@ == name {
        Some(rows.last().0)
    } else {
        category_id_in(rows.drop_last(), name)
    }
}

/// The id of the category `name` in the rows.
fn find_category_id(rows: &Vec<(i32, String)>, name: &Vec<char>) -> (r: Option<i32>)
    ensures
        r == category_id_in(rows@, name@),
{
    let mut i: usize = rows.len();
    assert(rows@.take(rows@.len() as int) =~= rows@);
    while i > 0
        invariant
            i <= rows@.len(),
            category_id_in(rows@, name@) == category_id_in(rows@.take(i as int), name@),
        decreases i,
    {
        let row_name = chars_of(rows[i - 1].1.as_str());
        let ghost pre = rows@.take(i as int);
        assert(pre.last() == rows@[i - 1]);
        assert(pre.drop_last() =~= rows@.take(i - 1));
        assert(row_name@.subrange(0, row_name@.len() as int) =~= row_name@);
        assert(name@.subrange(0, name@.len() as int) =~= name@);
        if crate::utils::text::slice_range_eq(row_name.as_slice(), 0, row_name.len(), name.as_slice(), 0, name.len()) {
            return Some(rows[i - 1].0);
        }
        i -= 1;
    }
    None
}

/// The columns that store the bookmarks of an import at once: titles, URLs,
/// category ids and cover images, one entry per bookmark.
#[derive(Debug, Clone)]
pub struct BatchColumns {
    pub titles: Vec<String>,
    pub urls: Vec<String>,
    pub category_ids: Vec<i32>,
    pub cover_images: Vec<String>,
}

/// The columns of the bookmarks of an import, each filed under the id that
/// the store gave its category.
pub fn batch_columns(rows: &Vec<(i32, String)>, items: &Vec<BookmarkBatchAdd>) -> (r: BatchColumns)
    requires
        forall|k: int| 0 <= k < items@.len() ==> category_id_in(rows@, (#[trigger] items@[k]).category@) is Some,
    ensures
        r.titles@.len() == items@.len(),
        r.urls@.len() == items@.len(),
        r.category_ids@.len() == items@.len(),
        r.cover_images@.len() == items@.len(),
        forall|k: int| 0 <= k < items@.len() ==> {
            &&& (#[trigger] r.titles@[k]) == items@[k].title
            &&& r.urls@[k] == items@[k].url
            &&& Some(r.category_ids@[k]) == category_id_in(rows@, items@[k].category@)
            &&& r.cover_images@[k] == items@[k].cover_image
        },
{
    let mut titles: Vec<String> = Vec::new();
    let mut urls: Vec<String> = Vec::new();
    let mut category_ids: Vec<i32> = Vec::new();
    let mut cover_images: Vec<String> = Vec::new();
    let mut i: usize = 0;
    while i < items.len()
        invariant
            i <= items@.len(),
            forall|k: int| 0 <= k < items@.len() ==> category_id_in(rows@, (#[trigger] items@[k]).category@) is Some,
            titles@.len() == i,
            urls@.len() == i,
            category_ids@.len() == i,
            cover_images@.len() == i,
            forall|k: int| 0 <= k < i ==> {
                &&& (#[trigger] titles@[k]) == items@[k].title
                &&& urls@[k] == items@[k].url
                &&& Some(category_ids@[k]) == category_id_in(rows@, items@[k].category@)
                &&& cover_images@[k] == items@[k].cover_image
            },
        decreases items.len() - i,
    {
        let item = &items[i];
        let name = chars_of(item.category.as_str());
        let found = find_category_id(rows, &name);
        assert(category_id_in(rows@, items@[i as int].category@) is Some);
        let cid = match found {
            Some(c) => c,
            None => 0,
        };
        titles.push(item.title.clone());
        urls.push(item.url.clone());
        category_ids.push(cid);
        cover_images.push(item.cover_image.clone());
        i += 1;
    }
    BatchColumns { titles, urls, category_ids, cover_images }
}

/// A search by keyword matches the keyword anywhere in a title: the value
/// bound to the title filter is `%`, the trimmed keyword, then `%`, and it
/// comes right after the category's value, if any.
pub proof fn lemma_title_filter_pattern(q: QueryArgs)
    requires
        q.keyword is Some,
        trim(q.keyword->0@).len() > 0,
    ensures
        ({
            let i: int = if q.category_id is Some { 1 } else { 0 };
            &&& listing_args(q)[i] == SqlValue::Text(seq!['%'] + trim(q.keyword->0@) + seq!['%'])
            &&& listing_args(q)[i] matches SqlValue::Text(p) && p[0] == '%' && p[p.len() - 1] == '%'
                && p.subrange(1, p.len() - 1) == trim(q.keyword->0@)
        }),
{
    let i: int = if q.category_id is Some { 1 } else { 0 };
    let k = trim(q.keyword->0@);
    let pat = seq!['%'] + k + seq!['%'];
    assert(keyword_of(q) == k);
    assert(category_args(q).len() == i);
    assert(keyword_args(q) == seq![SqlValue::Text(pat)]);
    assert(filter_args(q)[i] == SqlValue::Text(pat));
    assert(listing_args(q)[i] == filter_args(q)[i]);
    assert(pat.subrange(1, pat.len() - 1) =~= k);
}

} // verus!
