//! The home page: the bookmark list with its category, tag and keyword
//! filters, and the links that change them.
use crate::domain::bookmark::models::{Bookmark, CategoryWithBookmarkCount, QueryArgs, Tag};
use crate::routes::user::SessionUser;
use crate::utils::utils::{format_date_time, hong_kong_time_text, FORMAT};
use crate::utils::text::{
    all_digits, lemma_int_decimal_trimmed, lemma_nat_decimal, lemma_parse_int_decimal,
    lemma_split_join, nat_decimal, chars_of, decimals, int_decimal, join_decimals, join_strings, join_with, parse_i32,
    parse_i32_slice, push_decimal, split_bounds, split_char, trim, trim_bounds,
};
use vstd::prelude::*;
use vstd::string::*;
use vstd::utf8::encode_utf8;

verus! {

/// Bytes that `urlencoding::encode` leaves as they are: ASCII letters,
/// digits and `-`, `.`, `_`, `~`.
pub open spec fn url_unreserved(b: u8) -> bool {
    ||| 0x30 <= b <= 0x39
    ||| 0x41 <= b <= 0x5A
    ||| 0x61 <= b <= 0x7A
    ||| b == 0x2D
    ||| b == 0x2E
    ||| b == 0x5F
    ||| b == 0x7E
}

/// An upper-case hexadecimal digit.
pub open spec fn hex_upper(d: int) -> char {
    if d < 10 {
        (48 + d) as char
    } else {
        (55 + d) as char
    }
}

/// The percent-encoding of one byte.
pub open spec fn percent_encode_byte(b: u8) -> Seq<char> {
    if url_unreserved(b) {
        seq![b as char]
    } else {
        seq!['%', hex_upper((b / 16) as int), hex_upper((b % 16) as int)]
    }
}

/// The percent-encoding of a byte string.
pub open spec fn percent_encode(bytes: Seq<u8>) -> Seq<char>
    decreases bytes.len(),
{
    if bytes.len() == 0 {
        Seq::empty()
    } else {
        percent_encode(bytes.drop_last()) + percent_encode_byte(bytes.last())
    }
}

/// `urlencoding::encode(s)`: every byte of the UTF-8 form of `s` is
/// percent-encoded with upper-case hexadecimal digits, except ASCII letters,
/// digits and `-`, `.`, `_`, `~`, as the crate's documentation states.
#[verifier::external_body]
pub(crate) fn url_encode(s: &str) -> (r: String)
    ensures
        r@ == percent_encode(s.spec_bytes()),
{
    urlencoding::encode(s).into_owned()
}

/// The tag ids of a `t` query parameter: comma separated, each trimmed and
/// read as an `i32`; pieces that do not read are skipped.
pub open spec fn tag_ids_of(t: Seq<char>) -> Seq<i32> {
    split_char(t, ',').filter_map(|p: Seq<char>| parse_i32(trim(p)))
}

/// The `t` query parameter for a list of tag ids.
pub open spec fn tags_param(ids: Seq<i32>) -> Seq<char> {
    join_with(decimals(ids), seq![','])
}

/// Reads the tag ids of an optional `t` query parameter.
pub fn parse_tag_ids(t: &Option<String>) -> (r: Option<Vec<i32>>)
    ensures
        match t {
            None => r is None,
            Some(s) => r matches Some(v) && v@ == tag_ids_of(s@),
        },
{
    match t {
        None => None,
        Some(s) => {
            let cs = chars_of(s.as_str());
            let pieces = split_bounds(cs.as_slice(), 0, cs.len(), ',');
            let ghost parts = split_char(cs@.subrange(0, cs@.len() as int), ',');
            assert(cs@.subrange(0, cs@.len() as int) =~= s@);
            let mut out: Vec<i32> = Vec::new();
            let mut i: usize = 0;
            while i < pieces.len()
                invariant
                    i <= pieces@.len(),
                    pieces@.len() == parts.len(),
                    parts == split_char(s@, ','),
                    forall|k: int|
                        0 <= k < pieces@.len() ==> (#[trigger] pieces@[k]).0 <= pieces@[k].1
                            <= cs@.len() && cs@.subrange(pieces@[k].0 as int, pieces@[k].1 as int)
                            == parts[k],
                    out@ == parts.take(i as int).filter_map(|p: Seq<char>| parse_i32(trim(p))),
                decreases pieces@.len() - i,
            {
                let (a, b) = pieces[i];
                let (x, y) = trim_bounds(cs.as_slice(), a, b);
                let v = parse_i32_slice(cs.as_slice(), x, y);
                proof {
                    let f = |p: Seq<char>| parse_i32(trim(p));
                    assert(parts.take(i + 1).drop_last() =~= parts.take(i as int));
                    assert(parts.take(i + 1).last() == parts[i as int]);
                    assert(v == f(parts[i as int]));
                }
                match v {
                    Some(n) => out.push(n),
                    None => {},
                }
                i += 1;
            }
            assert(parts.take(pieces@.len() as int) =~= parts);
            Some(out)
        },
    }
}

proof fn lemma_decimal_has_no_comma(v: int)
    ensures
        !int_decimal(v).contains(','),
{
    let s = int_decimal(v);
    let m = if v < 0 {
        (-v) as nat
    } else {
        v as nat
    };
    lemma_nat_decimal(m);
    if s.contains(',') {
        let j = choose|j: int| 0 <= j < s.len() && s[j] == ',';
        if v < 0 {
            if j > 0 {
                assert(s[j] == nat_decimal(m)[j - 1]);
            }
        } else {
            assert(s[j] == nat_decimal(m)[j]);
        }
    }
}

proof fn lemma_filter_map_decimals(ids: Seq<i32>)
    ensures
        decimals(ids).filter_map(|p: Seq<char>| parse_i32(trim(p))) == ids,
    decreases ids.len(),
{
    let f = |p: Seq<char>| parse_i32(trim(p));
    if ids.len() > 0 {
        let init = ids.drop_last();
        lemma_filter_map_decimals(init);
        assert(decimals(ids).drop_last() =~= decimals(init));
        let x = ids.last();
        lemma_int_decimal_trimmed(x as int);
        lemma_parse_int_decimal(x);
        assert(decimals(ids).last() == int_decimal(x as int));
        assert(f(decimals(ids).last()) == Some(x));
        assert(decimals(ids).filter_map(f) =~= init.push(x));
        assert(init.push(x) =~= ids);
    } else {
        assert(decimals(ids) =~= Seq::<Seq<char>>::empty());
    }
}

/// The `t` parameter written for a list of tags reads back as that list.
pub proof fn lemma_tags_param_round_trip(ids: Seq<i32>)
    ensures
        tag_ids_of(tags_param(ids)) == ids,
{
    let f = |p: Seq<char>| parse_i32(trim(p));
    if ids.len() == 0 {
        assert(decimals(ids).len() == 0);
        assert(tags_param(ids) == Seq::<char>::empty());
        let e = Seq::<char>::empty();
        assert(split_char(e, ',') == seq![e]);
        assert(trim(e) == e);
        assert(f(e) is None);
        assert(seq![e].drop_last() =~= Seq::<Seq<char>>::empty());
        assert(seq![e].last() == e);
        assert(Seq::<Seq<char>>::empty().filter_map(f) =~= Seq::<i32>::empty());
        assert(seq![e].filter_map(f) =~= Seq::<i32>::empty());
        assert(tag_ids_of(tags_param(ids)) =~= ids);
    } else {
        assert forall|k: int| 0 <= k < decimals(ids).len() implies !(
        #[trigger] decimals(ids)[k]).contains(',') by {
            lemma_decimal_has_no_comma(ids[k] as int);
        }
        lemma_split_join(decimals(ids), ',');
        lemma_filter_map_decimals(ids);
    }
}

/// One bookmark as the list shows it.
#[derive(Debug, Clone)]
pub struct BookmarkItemTemplate {
    pub id: i32,
    pub title: String,
    pub url: String,
    pub cover_image: String,
    pub tags: Vec<String>,
    pub created_at: String,
}

/// The names of a list of tags.
pub open spec fn tag_names(tags: Seq<Tag>) -> Seq<Seq<char>> {
    tags.map_values(|t: Tag| t.name@)
}

impl BookmarkItemTemplate {
    /// The list entry of a bookmark: its tags by name and its creation time
    /// as Hong Kong local time.
    pub fn from_bookmark(item: Bookmark) -> (r: Self)
        ensures
            r.id == item.id,
            r.title == item.title,
            r.url == item.url,
            r.cover_image == item.cover_image,
            r.tags.deep_view() == tag_names(item.tags@),
            r.created_at@ == match hong_kong_time_text(item.created_at, FORMAT@) {
                Some(t) => t,
                None => Seq::empty(),
            },
    {
        let mut tags: Vec<String> = Vec::new();
        let mut i: usize = 0;
        while i < item.tags.len()
            invariant
                i <= item.tags@.len(),
                tags@.len() == i,
                tags.deep_view() == tag_names(item.tags@).take(i as int),
            decreases item.tags@.len() - i,
        {
            let ghost prev = tags@;
            let name = item.tags[i].name.clone();
            tags.push(name);
            proof {
                assert(tags@ == prev.push(name));
                assert forall|k: int| 0 <= k < i + 1 implies tags.deep_view()[k] == tag_names(
                    item.tags@,
                ).take(i + 1)[k] by {
                    if k < i {
                        assert(tags@[k] == prev[k]);
                    }
                }
                assert(tags.deep_view() =~= tag_names(item.tags@).take(i + 1));
            }
            i += 1;
        }
        assert(tag_names(item.tags@).take(item.tags@.len() as int) =~= tag_names(item.tags@));
        let created_at = format_date_time(item.created_at);
        BookmarkItemTemplate {
            id: item.id,
            title: item.title,
            url: item.url,
            cover_image: item.cover_image,
            tags,
            created_at,
        }
    }
}

/// The home page's query string.
#[derive(Debug, Clone)]
pub struct HomeQuery {
    pub c: Option<i32>,
    pub t: Option<String>,
    pub q: Option<String>,
    pub page: Option<i32>,
    pub page_size: Option<i32>,
}

/// A page of the bookmark list.
#[derive(Debug, Clone)]
pub struct BookmarkListTemplate {
    pub bookmarks: Vec<BookmarkItemTemplate>,
    pub next_page: i32,
    pub has_more: bool,
    pub selected_category: Option<i32>,
    pub selected_tag_ids: Vec<i32>,
    pub search_keyword: String,
    pub is_admin: bool,
}

impl BookmarkListTemplate {
    /// The selected tags as a `t` query parameter.
    pub fn selected_tags_param(&self) -> (r: String)
        ensures
            r@ == tags_param(self.selected_tag_ids@),
    {
        join_decimals(self.selected_tag_ids.as_slice(), ',')
    }
}

/// The whole home page.
#[derive(Debug, Clone)]
pub struct HomeTemplate {
    pub bookmarks: BookmarkListTemplate,
    pub categories: Vec<CategoryWithBookmarkCount>,
    pub tags: Vec<Tag>,
    pub selected_category: Option<i32>,
    pub selected_tag_ids: Vec<i32>,
    pub search_keyword: String,
    pub user: SessionUser,
}

/// A home page link made of query parameters: `/` alone when there are
/// none, else `/?` and the parameters joined by `&`.
pub open spec fn home_url(params: Seq<Seq<char>>) -> Seq<char> {
    if params.len() == 0 {
        "/"@
    } else {
        "/?"@ + join_with(params, "&"@)
    }
}

/// The parameter `name=value`, when `present`.
pub open spec fn param_if(present: bool, name: Seq<char>, value: Seq<char>) -> Seq<Seq<char>> {
    if present {
        seq![name + value]
    } else {
        Seq::empty()
    }
}

/// The parameters a link keeps from the current view: the selected tags and
/// the search keyword (percent-encoded).
pub open spec fn kept_params(tags: Seq<i32>, keyword: Seq<char>) -> Seq<Seq<char>> {
    param_if(tags.len() > 0, "t="@, tags_param(tags)) + param_if(
        keyword.len() > 0,
        "q="@,
        percent_encode(encode_utf8(keyword)),
    )
}

/// The link of a category: it selects the category, or clears the selection
/// when the category is already selected; tags and keyword are kept.
pub open spec fn category_url_spec(
    selected: Option<i32>,
    tags: Seq<i32>,
    keyword: Seq<char>,
    cat_id: i32,
) -> Seq<char> {
    home_url(param_if(selected != Some(cat_id), "c="@, int_decimal(cat_id as int)) + kept_params(
        tags,
        keyword,
    ))
}

/// The index of the first occurrence of `x` in `s`.
pub open spec fn first_index_of(s: Seq<i32>, x: i32) -> int
    decreases s.len(),
{
    if s.len() == 0 || s[0] == x {
        0
    } else {
        1 + first_index_of(s.drop_first(), x)
    }
}

/// The tag selection after clicking `tag`: its first occurrence removed when
/// it is selected, else `tag` added at the end.
pub open spec fn toggle_tag(s: Seq<i32>, tag: i32) -> Seq<i32> {
    if s.contains(tag) {
        s.remove(first_index_of(s, tag))
    } else {
        s.push(tag)
    }
}

/// The link of a tag: the selected category is kept, the tag is toggled in
/// the selection, the keyword is kept.
pub open spec fn tag_url_spec(
    selected: Option<i32>,
    tags: Seq<i32>,
    keyword: Seq<char>,
    tag_id: i32,
) -> Seq<char> {
    home_url(
        param_if(
            selected is Some,
            "c="@,
            int_decimal(selected.unwrap_or(0i32) as int),
        ) + kept_params(toggle_tag(tags, tag_id), keyword),
    )
}

proof fn lemma_first_index_of(s: Seq<i32>, x: i32, i: int)
    requires
        0 <= i < s.len(),
        s[i] == x,
        forall|j: int| 0 <= j < i ==> s[j] != x,
    ensures
        first_index_of(s, x) == i,
    decreases i,
{
    if i > 0 {
        lemma_first_index_of(s.drop_first(), x, i - 1);
    }
}

fn param(name: &str, value: &str) -> (r: String)
    ensures
        r@ == name@ + value@,
{
    let mut r = String::from_str(name);
    r.append(value);
    r
}

/// Appends the parameters kept by every link to `params`.
fn push_kept_params(params: &mut Vec<String>, tags: &[i32], keyword: &String)
    ensures
        final(params).deep_view() == old(params).deep_view() + kept_params(tags@, keyword@),
{
    let ghost start = params.deep_view();
    if tags.len() > 0 {
        let t = join_decimals(tags, ',');
        params.push(param("t=", t.as_str()));
    }
    assert(params.deep_view() =~= start + param_if(tags@.len() > 0, "t="@, tags_param(tags@)));
    let ghost mid = params.deep_view();
    if keyword.unicode_len() > 0 {
        let q = url_encode(keyword.as_str());
        params.push(param("q=", q.as_str()));
    }
    assert(params.deep_view() =~= mid + param_if(
        keyword@.len() > 0,
        "q="@,
        percent_encode(encode_utf8(keyword@)),
    ));
    assert(params.deep_view() =~= start + kept_params(tags@, keyword@));
}

fn home_url_exec(params: &Vec<String>) -> (r: String)
    ensures
        r@ == home_url(params.deep_view()),
{
    if params.len() == 0 {
        String::from_str("/")
    } else {
        let joined = join_strings(params, "&");
        param("/?", joined.as_str())
    }
}

impl HomeTemplate {
    /// The link of a category.
    pub fn category_url(&self, cat_id: &i32) -> (r: String)
        ensures
            r@ == category_url_spec(
                self.selected_category,
                self.selected_tag_ids@,
                self.search_keyword@,
                *cat_id,
            ),
    {
        let mut params: Vec<String> = Vec::new();
        let select = match self.selected_category {
            Some(c) => c != *cat_id,
            None => true,
        };
        if select {
            let mut c = String::from_str("c=");
            push_decimal(&mut c, *cat_id as i64);
            params.push(c);
        }
        assert(params.deep_view() =~= param_if(
            self.selected_category != Some(*cat_id),
            "c="@,
            int_decimal(*cat_id as int),
        ));
        push_kept_params(&mut params, self.selected_tag_ids.as_slice(), &self.search_keyword);
        home_url_exec(&params)
    }

    /// The link of a tag.
    pub fn tag_url(&self, tag_id: &i32) -> (r: String)
        ensures
            r@ == tag_url_spec(
                self.selected_category,
                self.selected_tag_ids@,
                self.search_keyword@,
                *tag_id,
            ),
    {
        let mut params: Vec<String> = Vec::new();
        if let Some(cid) = self.selected_category {
            let mut c = String::from_str("c=");
            push_decimal(&mut c, cid as i64);
            params.push(c);
        }
        assert(params.deep_view() =~= param_if(
            self.selected_category is Some,
            "c="@,
            int_decimal(self.selected_category.unwrap_or(0i32) as int),
        ));
        let new_tags = toggled(&self.selected_tag_ids, *tag_id);
        push_kept_params(&mut params, new_tags.as_slice(), &self.search_keyword);
        home_url_exec(&params)
    }

    pub fn is_category_selected(&self, cat_id: &i32) -> (r: bool)
        ensures
            r == (self.selected_category == Some(*cat_id)),
    {
        match self.selected_category {
            Some(c) => c == *cat_id,
            None => false,
        }
    }

    pub fn is_tag_selected(&self, tag_id: &i32) -> (r: bool)
        ensures
            r == self.selected_tag_ids@.contains(*tag_id),
    {
        contains_i32(&self.selected_tag_ids, *tag_id)
    }

    /// Nothing filters the list.
    pub fn is_all_selected(&self) -> (r: bool)
        ensures
            r == (self.selected_category is None && self.selected_tag_ids@.len() == 0),
    {
        self.selected_category.is_none() && self.selected_tag_ids.len() == 0
    }

    /// The number of bookmarks over all categories.
    pub fn total_bookmarks(&self) -> (r: i64)
        requires
            sums_fit(self.categories@),
        ensures
            r == count_sum(self.categories@),
    {
        let mut total: i64 = 0;
        let mut i: usize = 0;
        while i < self.categories.len()
            invariant
                i <= self.categories@.len(),
                sums_fit(self.categories@),
                total == count_sum(self.categories@.take(i as int)),
            decreases self.categories@.len() - i,
        {
            assert(self.categories@.take(i + 1).drop_last() =~= self.categories@.take(i as int));
            assert(i64::MIN <= count_sum(self.categories@.take(i + 1)) <= i64::MAX);
            total = total + self.categories[i].bookmark_count;
            i += 1;
        }
        assert(self.categories@.take(self.categories@.len() as int) =~= self.categories@);
        total
    }
}

/// The sum of the bookmark counts.
pub open spec fn count_sum(cats: Seq<CategoryWithBookmarkCount>) -> int
    decreases cats.len(),
{
    if cats.len() == 0 {
        0
    } else {
        count_sum(cats.drop_last()) + cats.last().bookmark_count
    }
}

/// Every running total of the counts fits in an `i64` (summing otherwise
/// overflows).
pub open spec fn sums_fit(cats: Seq<CategoryWithBookmarkCount>) -> bool {
    forall|k: int| 0 <= k <= cats.len() ==> i64::MIN <= #[trigger] count_sum(cats.take(k)) <= i64::MAX
}

/// Whether `v` holds `x`.
pub fn contains_i32(v: &Vec<i32>, x: i32) -> (r: bool)
    ensures
        r == v@.contains(x),
{
    let mut i: usize = 0;
    while i < v.len()
        invariant
            i <= v@.len(),
            forall|j: int| 0 <= j < i ==> v@[j] != x,
        decreases v@.len() - i,
    {
        if v[i] == x {
            return true;
        }
        i += 1;
    }
    false
}

/// The selection after clicking `tag`.
pub fn toggled(s: &Vec<i32>, tag: i32) -> (r: Vec<i32>)
    ensures
        r@ == toggle_tag(s@, tag),
{
    let mut v = s.clone();
    assert(v@ =~= s@);
    let mut i: usize = 0;
    while i < v.len()
        invariant
            v@ == s@,
            i <= v@.len(),
            forall|j: int| 0 <= j < i ==> v@[j] != tag,
        decreases v@.len() - i,
    {
        if v[i] == tag {
            proof {
                lemma_first_index_of(s@, tag, i as int);
            }
            v.remove(i);
            return v;
        }
        i += 1;
    }
    v.push(tag);
    v
}

/// Clicking a tag that is not selected and then clicking it again gives back
/// the selection as it was.
pub proof fn lemma_toggle_tag_twice(s: Seq<i32>, tag: i32)
    requires
        !s.contains(tag),
    ensures
        toggle_tag(toggle_tag(s, tag), tag) == s,
{
    let t = s.push(tag);
    assert(t[s.len() as int] == tag);
    assert(t.contains(tag));
    assert forall|j: int| 0 <= j < s.len() implies t[j] != tag by {
        assert(t[j] == s[j]);
    }
    lemma_first_index_of(t, tag, s.len() as int);
    assert(t.remove(s.len() as int) =~= s);
}

/// Clicking a tag's link twice, in a selection without repeats, selects the
/// tag exactly when it was not selected, and leaves every other tag as it
/// was.
pub proof fn lemma_toggle_tag_membership(s: Seq<i32>, tag: i32, other: i32)
    requires
        s.no_duplicates(),
    ensures
        toggle_tag(s, tag).contains(tag) == !s.contains(tag),
        other != tag ==> toggle_tag(s, tag).contains(other) == s.contains(other),
        toggle_tag(s, tag).no_duplicates(),
{
    if s.contains(tag) {
        let i = choose|i: int| 0 <= i < s.len() && s[i] == tag;
        let p = first_index_of(s, tag);
        assert(p == i) by {
            let mut k = 0int;
            assert forall|j: int| 0 <= j < i implies s[j] != tag by {
                if s[j] == tag {
                    assert(j != i);
                }
            }
            lemma_first_index_of(s, tag, i);
        }
        let t = s.remove(p);
        assert(!t.contains(tag)) by {
            if t.contains(tag) {
                let j = choose|j: int| 0 <= j < t.len() && t[j] == tag;
                if j < p {
                    assert(s[j] == tag);
                } else {
                    assert(s[j + 1] == tag);
                }
            }
        }
        if other != tag {
            if s.contains(other) {
                let j = choose|j: int| 0 <= j < s.len() && s[j] == other;
                if j < p {
                    assert(t[j] == other);
                } else {
                    assert(j != p);
                    assert(t[j - 1] == other);
                }
            }
            if t.contains(other) {
                let j = choose|j: int| 0 <= j < t.len() && t[j] == other;
                if j < p {
                    assert(s[j] == other);
                } else {
                    assert(s[j + 1] == other);
                }
            }
        }
        assert forall|a: int, b: int| 0 <= a < b < t.len() implies t[a] != t[b] by {
            let a2 = if a < p { a } else { a + 1 };
            let b2 = if b < p { b } else { b + 1 };
            assert(t[a] == s[a2]);
            assert(t[b] == s[b2]);
        }
    } else {
        let t = s.push(tag);
        assert(t[s.len() as int] == tag);
        if other != tag {
            if s.contains(other) {
                let j = choose|j: int| 0 <= j < s.len() && s[j] == other;
                assert(t[j] == other);
            }
            if t.contains(other) {
                let j = choose|j: int| 0 <= j < t.len() && t[j] == other;
                assert(j < s.len());
                assert(s[j] == other);
            }
        }
        assert forall|a: int, b: int| 0 <= a < b < t.len() implies t[a] != t[b] by {
            if b == s.len() {
                assert(t[a] == s[a]);
            }
        }
    }
}

/// `t` is the list entry of `b`.
pub open spec fn item_of(b: Bookmark, t: BookmarkItemTemplate) -> bool {
    &&& t.id == b.id
    &&& t.title == b.title
    &&& t.url == b.url
    &&& t.cover_image == b.cover_image
    &&& t.tags.deep_view() == tag_names(b.tags@)
    &&& t.created_at@ == match hong_kong_time_text(b.created_at, FORMAT@) {
        Some(x) => x,
        None => Seq::empty(),
    }
}

/// The list query behind the home page: the tags of `t`, the keyword of `q`
/// (empty when absent), page 1 and pages of 100 unless given.
pub fn home_query_args(query: HomeQuery) -> (r: (QueryArgs, Vec<i32>, String))
    ensures
        r.1@ == match query.t {
            Some(t) => tag_ids_of(t@),
            None => Seq::empty(),
        },
        r.2@ == match query.q {
            Some(q) => q@,
            None => Seq::empty(),
        },
        r.0.category_id == query.c,
        r.0.tags matches Some(v) && v@ == r.1@,
        r.0.keyword matches Some(k) && k@ == r.2@,
        r.0.page == query.page.unwrap_or(1),
        r.0.page_size == query.page_size.unwrap_or(100),
{
    let selected_tag_ids = match parse_tag_ids(&query.t) {
        Some(v) => v,
        None => Vec::new(),
    };
    let search_keyword = match query.q {
        Some(q) => q,
        None => String::new(),
    };
    let page = query.page.unwrap_or(1);
    let page_size = query.page_size.unwrap_or(100);
    let tags = selected_tag_ids.clone();
    assert(tags@ =~= selected_tag_ids@);
    let args = QueryArgs {
        category_id: query.c,
        tags: Some(tags),
        keyword: Some(search_keyword.clone()),
        page,
        page_size,
    };
    (args, selected_tag_ids, search_keyword)
}

/// A page of the list built from the bookmarks found: there may be more
/// when the page came back full.
pub fn bookmark_list(
    bookmarks: Vec<Bookmark>,
    page: i32,
    page_size: i32,
    selected_category: Option<i32>,
    selected_tag_ids: Vec<i32>,
    search_keyword: String,
    is_admin: bool,
) -> (r: BookmarkListTemplate)
    requires
        page < i32::MAX,
    ensures
        r.bookmarks@.len() == bookmarks@.len(),
        forall|k: int| 0 <= k < bookmarks@.len() ==> item_of(bookmarks@[k], #[trigger] r.bookmarks@[k]),
        r.next_page == page + 1,
        r.has_more == ((bookmarks@.len() as i32) == page_size),
        r.selected_category == selected_category,
        r.selected_tag_ids == selected_tag_ids,
        r.search_keyword == search_keyword,
        r.is_admin == is_admin,
{
    let n = bookmarks.len();
    let has_more = (n as i32) == page_size;
    let mut items: Vec<BookmarkItemTemplate> = Vec::new();
    let mut rest = bookmarks;
    let ghost all = rest@;
    // Take the bookmarks from the back, then restore their order.
    while rest.len() > 0
        invariant
            rest@.len() + items@.len() == all.len(),
            rest@ == all.subrange(0, rest@.len() as int),
            forall|k: int|
                0 <= k < items@.len() ==> item_of(all[all.len() - 1 - k], #[trigger] items@[k]),
        decreases rest@.len(),
    {
        let b = rest.pop().unwrap();
        let t = BookmarkItemTemplate::from_bookmark(b);
        items.push(t);
        assert(rest@ =~= all.subrange(0, rest@.len() as int));
    }
    let mut out: Vec<BookmarkItemTemplate> = Vec::new();
    while items.len() > 0
        invariant
            items@.len() + out@.len() == all.len(),
            forall|k: int|
                0 <= k < items@.len() ==> item_of(all[all.len() - 1 - k], #[trigger] items@[k]),
            forall|k: int| 0 <= k < out@.len() ==> item_of(all[k], #[trigger] out@[k]),
        decreases items@.len(),
    {
        let ghost before = items@;
        let t = items.pop().unwrap();
        assert(item_of(all[all.len() - 1 - (before.len() - 1)], t));
        out.push(t);
    }
    BookmarkListTemplate {
        bookmarks: out,
        next_page: page + 1,
        has_more,
        selected_category,
        selected_tag_ids,
        search_keyword,
        is_admin,
    }
}

} // verus!
