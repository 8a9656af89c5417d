//! Languages of the interface: which are supported, and how the language of
//! a request is chosen.
use crate::utils::text::{
    chars_of, eq_ignore_ascii_case, eq_ignore_ascii_case_exec, find_in, find_seq, slice_range_eq,
    split_bounds, split_char, string_of, trim, trim_bounds,
};
use vstd::prelude::*;

verus! {

/// The supported languages.
#[derive(Debug, Clone, Copy, PartialEq, Eq)]
pub enum Lang {
    ZhCn,
    EnUs,
}

/// The language tag of a supported language, as `LanguageIdentifier`
/// displays it.
pub open spec fn lang_tag(l: Lang) -> Seq<char> {
    match l {
        Lang::ZhCn => "zh-CN"@,
        Lang::EnUs => "en-US"@,
    }
}

/// The language subtag of a supported language.
pub open spec fn lang_language(l: Lang) -> Seq<char> {
    match l {
        Lang::ZhCn => "zh"@,
        Lang::EnUs => "en"@,
    }
}

impl Lang {
    /// The language tag, as `to_string` gives it.
    pub fn tag(&self) -> (r: &'static str)
        ensures
            r@ == lang_tag(*self),
    {
        match self {
            Lang::ZhCn => "zh-CN",
            Lang::EnUs => "en-US",
        }
    }

    /// The language subtag.
    pub fn language(&self) -> (r: &'static str)
        ensures
            r@ == lang_language(*self),
    {
        match self {
            Lang::ZhCn => "zh",
            Lang::EnUs => "en",
        }
    }
}

/// The language used when a request names none: Simplified Chinese.
pub fn default_lang() -> (r: Lang)
    ensures
        r == Lang::ZhCn,
{
    Lang::ZhCn
}

/// What parsing `s` as a `unic_langid::LanguageIdentifier` (through
/// `fluent_templates`) and displaying it gives: the canonical form of the
/// tag, or `None` when `s` is not a language tag.
pub uninterp spec fn langid_canonical(s: Seq<char>) -> Option<Seq<char>>;

/// Parses `s` as a `LanguageIdentifier` and renders it back; stated only
/// through `langid_canonical`. Two identifiers are equal exactly when
/// their renderings are, which is how supported languages are matched.
#[verifier::external_body]
fn canonical_langid(s: &str) -> (r: Option<String>)
    ensures
        r.deep_view() == langid_canonical(s@),
{
    match s.parse::<fluent_templates::LanguageIdentifier>() {
        Ok(l) => Some(l.to_string()),
        Err(_) => None,
    }
}

/// The supported language a tag names, if any.
pub open spec fn supported_lang(s: Seq<char>) -> Option<Lang> {
    match langid_canonical(s) {
        Some(c) => if c == "zh-CN"@ {
            Some(Lang::ZhCn)
        } else if c == "en-US"@ {
            Some(Lang::EnUs)
        } else {
            None
        },
        None => None,
    }
}

fn slice_is(s: &[char], from: usize, to: usize, lit: &str) -> (r: bool)
    requires
        from <= to <= s@.len(),
    ensures
        r == (s@.subrange(from as int, to as int) == lit@),
{
    let l = chars_of(lit);
    let r = slice_range_eq(s, from, to, l.as_slice(), 0, l.len());
    assert(l@.subrange(0, l@.len() as int) =~= lit@);
    r
}

/// The supported language `candidate` names, if any.
pub fn pick_supported(candidate: &str) -> (r: Option<Lang>)
    ensures
        r == supported_lang(candidate@),
{
    match canonical_langid(candidate) {
        Some(c) => {
            let cs = chars_of(c.as_str());
            if slice_is(cs.as_slice(), 0, cs.len(), "zh-CN") {
                assert(cs@.subrange(0, cs@.len() as int) =~= c@);
                Some(Lang::ZhCn)
            } else if slice_is(cs.as_slice(), 0, cs.len(), "en-US") {
                assert(cs@.subrange(0, cs@.len() as int) =~= c@);
                Some(Lang::EnUs)
            } else {
                assert(cs@.subrange(0, cs@.len() as int) =~= c@);
                None
            }
        },
        None => None,
    }
}

fn pick_supported_slice(s: &[char], from: usize, to: usize) -> (r: Option<Lang>)
    requires
        from <= to <= s@.len(),
    ensures
        r == supported_lang(s@.subrange(from as int, to as int)),
{
    let v = string_of(s, from, to);
    pick_supported(v.as_str())
}

/// `s.split_once(c)`: the parts before and after the first `c`.
pub open spec fn split_once(s: Seq<char>, c: char) -> Option<(Seq<char>, Seq<char>)> {
    match find_seq(s, seq![c]) {
        Some(k) => Some((s.subrange(0, k), s.subrange(k + 1, s.len() as int))),
        None => None,
    }
}

/// The value of a `key=value` piece whose key is `lang`. `trimmed` says
/// whether the piece is trimmed before it is split.
pub open spec fn piece_lang(piece: Seq<char>, trimmed: bool) -> Option<Seq<char>> {
    let p = if trimmed {
        trim(piece)
    } else {
        piece
    };
    match split_once(p, '=') {
        Some((k, v)) => if k == "lang"@ {
            Some(v)
        } else {
            None
        },
        None => None,
    }
}

/// The value of the first `lang=value` piece; pieces without `=` are
/// skipped.
pub open spec fn lang_value(pieces: Seq<Seq<char>>, trimmed: bool) -> Option<Seq<char>>
    decreases pieces.len(),
{
    if pieces.len() == 0 {
        None
    } else {
        match piece_lang(pieces[0], trimmed) {
            Some(v) => Some(v),
            None => lang_value(pieces.drop_first(), trimmed),
        }
    }
}

/// The language named by the `lang` parameter of a query string: only the
/// first `lang` parameter counts.
pub open spec fn query_lang(query: Seq<char>) -> Option<Lang> {
    match lang_value(split_char(query, '&'), false) {
        Some(v) => supported_lang(v),
        None => None,
    }
}

/// The language named by the `lang` cookie of a `Cookie` header: only the
/// first `lang` cookie counts.
pub open spec fn cookie_lang(cookie: Seq<char>) -> Option<Lang> {
    match lang_value(split_char(cookie, ';'), true) {
        Some(v) => supported_lang(v),
        None => None,
    }
}

/// The first supported language of an `Accept-Language` list, in the
/// order given (quality weights are not read).
pub open spec fn accept_lang_of(parts: Seq<Seq<char>>) -> Option<Lang>
    decreases parts.len(),
{
    if parts.len() == 0 {
        None
    } else {
        match supported_lang(trim(split_char(parts[0], ';')[0])) {
            Some(l) => Some(l),
            None => accept_lang_of(parts.drop_first()),
        }
    }
}

pub open spec fn accept_language_lang(header: Seq<char>) -> Option<Lang> {
    accept_lang_of(split_char(header, ','))
}

/// `s[a..b].split_once(c)`, as the absolute index of the first `c`.
fn split_once_exec(s: &[char], a: usize, b: usize, c: char) -> (r: Option<usize>)
    requires
        a <= b <= s@.len(),
    ensures
        match split_once(s@.subrange(a as int, b as int), c) {
            Some((k, v)) => r matches Some(m) && a <= m < b && s@.subrange(a as int, m as int) == k
                && s@.subrange(m + 1, b as int) == v,
            None => r is None,
        },
{
    let mut sep: Vec<char> = Vec::new();
    sep.push(c);
    assert(sep@ =~= seq![c]);
    match find_in(s, a, b, sep.as_slice()) {
        Some(k) => {
            assert(s@.subrange(a as int, b as int).subrange(0, k as int) =~= s@.subrange(
                a as int,
                a + k,
            ));
            assert(s@.subrange(a as int, b as int).subrange(k + 1, (b - a) as int) =~= s@.subrange(
                a + k + 1,
                b as int,
            ));
            Some(a + k)
        },
        None => None,
    }
}

fn piece_lang_exec(s: &[char], a0: usize, b0: usize, trimmed: bool) -> (r: Option<(usize, usize)>)
    requires
        a0 <= b0 <= s@.len(),
    ensures
        match piece_lang(s@.subrange(a0 as int, b0 as int), trimmed) {
            Some(v) => r matches Some(b) && b.0 <= b.1 <= s@.len() && s@.subrange(
                b.0 as int,
                b.1 as int,
            ) == v,
            None => r is None,
        },
{
    let (a, b) = if trimmed {
        trim_bounds(s, a0, b0)
    } else {
        (a0, b0)
    };
    match split_once_exec(s, a, b, '=') {
        Some(m) => {
            if slice_is(s, a, m, "lang") {
                Some((m + 1, b))
            } else {
                None
            }
        },
        None => None,
    }
}

/// Finds the `lang` value among `s`'s pieces (given as bounds).
fn lang_value_exec(s: &[char], pieces: &Vec<(usize, usize)>, trimmed: bool) -> (r: Option<
    (usize, usize),
>)
    requires
        forall|k: int|
            0 <= k < pieces@.len() ==> (#[trigger] pieces@[k]).0 <= pieces@[k].1 <= s@.len(),
    ensures
        match lang_value(
            pieces@.map_values(|b: (usize, usize)| s@.subrange(b.0 as int, b.1 as int)),
            trimmed,
        ) {
            Some(v) => r matches Some(b) && b.0 <= b.1 <= s@.len() && s@.subrange(
                b.0 as int,
                b.1 as int,
            ) == v,
            None => r is None,
        },
{
    let ghost all = pieces@.map_values(|b: (usize, usize)| s@.subrange(b.0 as int, b.1 as int));
    assert(all.subrange(0, all.len() as int) =~= all);
    let mut i: usize = 0;
    while i < pieces.len()
        invariant
            i <= pieces@.len(),
            all == pieces@.map_values(|b: (usize, usize)| s@.subrange(b.0 as int, b.1 as int)),
            forall|k: int|
                0 <= k < pieces@.len() ==> (#[trigger] pieces@[k]).0 <= pieces@[k].1 <= s@.len(),
            lang_value(all, trimmed) == lang_value(all.subrange(i as int, all.len() as int), trimmed),
        decreases pieces@.len() - i,
    {
        let (a0, b0) = pieces[i];
        let ghost rest = all.subrange(i as int, all.len() as int);
        assert(rest[0] == s@.subrange(a0 as int, b0 as int));
        assert(rest.drop_first() =~= all.subrange(i + 1, all.len() as int));
        let found = piece_lang_exec(s, a0, b0, trimmed);
        if found.is_some() {
            return found;
        }
        i += 1;
    }
    None
}

/// The language named by a query string.
pub fn parse_query_lang(query: &str) -> (r: Option<Lang>)
    ensures
        r == query_lang(query@),
{
    let cs = chars_of(query);
    let pieces = split_bounds(cs.as_slice(), 0, cs.len(), '&');
    assert(cs@.subrange(0, cs@.len() as int) =~= query@);
    assert(pieces@.map_values(|b: (usize, usize)| cs@.subrange(b.0 as int, b.1 as int))
        =~= split_char(query@, '&'));
    match lang_value_exec(cs.as_slice(), &pieces, false) {
        Some((a, b)) => pick_supported_slice(cs.as_slice(), a, b),
        None => None,
    }
}

/// The language named by a `Cookie` header.
pub fn parse_cookie_lang(cookie: &str) -> (r: Option<Lang>)
    ensures
        r == cookie_lang(cookie@),
{
    let cs = chars_of(cookie);
    let pieces = split_bounds(cs.as_slice(), 0, cs.len(), ';');
    assert(cs@.subrange(0, cs@.len() as int) =~= cookie@);
    assert(pieces@.map_values(|b: (usize, usize)| cs@.subrange(b.0 as int, b.1 as int))
        =~= split_char(cookie@, ';'));
    match lang_value_exec(cs.as_slice(), &pieces, true) {
        Some((a, b)) => pick_supported_slice(cs.as_slice(), a, b),
        None => None,
    }
}

/// The language chosen by an `Accept-Language` header.
pub fn parse_accept_language(header: &str) -> (r: Option<Lang>)
    ensures
        r == accept_language_lang(header@),
{
    let cs = chars_of(header);
    let pieces = split_bounds(cs.as_slice(), 0, cs.len(), ',');
    assert(cs@.subrange(0, cs@.len() as int) =~= header@);
    let ghost all = split_char(header@, ',');
    assert(all.subrange(0, all.len() as int) =~= all);
    let mut i: usize = 0;
    while i < pieces.len()
        invariant
            i <= pieces@.len(),
            pieces@.len() == all.len(),
            all == split_char(header@, ','),
            cs@ == header@,
            forall|k: int|
                0 <= k < pieces@.len() ==> (#[trigger] pieces@[k]).0 <= pieces@[k].1 <= cs@.len()
                    && cs@.subrange(pieces@[k].0 as int, pieces@[k].1 as int) == all[k],
            accept_lang_of(all) == accept_lang_of(all.subrange(i as int, all.len() as int)),
        decreases pieces@.len() - i,
    {
        let (a, b) = pieces[i];
        let subs = split_bounds(cs.as_slice(), a, b, ';');
        proof {
            crate::utils::text::lemma_split_len(cs@.subrange(a as int, b as int), ';');
        }
        let (x0, y0) = subs[0];
        let (x, y) = trim_bounds(cs.as_slice(), x0, y0);
        let ghost rest = all.subrange(i as int, all.len() as int);
        assert(rest[0] == all[i as int]);
        assert(rest.drop_first() =~= all.subrange(i + 1, all.len() as int));
        if let Some(l) = pick_supported_slice(cs.as_slice(), x, y) {
            return Some(l);
        }
        i += 1;
    }
    None
}

/// The language of a request: the query's `lang` parameter, else the `lang`
/// cookie, else the first supported `Accept-Language` entry, else the
/// default. Each source is given as the request has it, `None` when absent.
pub open spec fn detected_lang(
    query: Option<Seq<char>>,
    cookie: Option<Seq<char>>,
    accept: Option<Seq<char>>,
) -> Lang {
    let q = match query {
        Some(q) => query_lang(q),
        None => None,
    };
    let c = match cookie {
        Some(c) => cookie_lang(c),
        None => None,
    };
    let a = match accept {
        Some(a) => accept_language_lang(a),
        None => None,
    };
    match q {
        Some(l) => l,
        None => match c {
            Some(l) => l,
            None => match a {
                Some(l) => l,
                None => Lang::ZhCn,
            },
        },
    }
}

pub fn detect_lang(query: Option<&str>, cookie: Option<&str>, accept: Option<&str>) -> (r: Lang)
    ensures
        r == detected_lang(
            match query {
                Some(q) => Some(q@),
                None => None,
            },
            match cookie {
                Some(c) => Some(c@),
                None => None,
            },
            match accept {
                Some(a) => Some(a@),
                None => None,
            },
        ),
{
    if let Some(q) = query {
        if let Some(l) = parse_query_lang(q) {
            return l;
        }
    }
    if let Some(c) = cookie {
        if let Some(l) = parse_cookie_lang(c) {
            return l;
        }
    }
    if let Some(a) = accept {
        if let Some(l) = parse_accept_language(a) {
            return l;
        }
    }
    default_lang()
}

/// The tag of the language in force (the scoped one, else the default).
pub fn current_lang(scoped: Option<Lang>) -> (r: String)
    ensures
        r@ == lang_tag(
            match scoped {
                Some(l) => l,
                None => Lang::ZhCn,
            },
        ),
{
    let lang = match scoped {
        Some(l) => l,
        None => default_lang(),
    };
    String::from_str(lang.tag())
}

/// Whether `candidate` names the language `lang`: its full tag exactly, or
/// its language subtag in any ASCII case.
pub fn is_current_lang(lang: Lang, candidate: &str) -> (r: bool)
    ensures
        r == (lang_tag(lang) == candidate@ || eq_ignore_ascii_case(
            lang_language(lang),
            candidate@,
        )),
{
    let cs = chars_of(candidate);
    let full = slice_is(cs.as_slice(), 0, cs.len(), lang.tag());
    assert(cs@.subrange(0, cs@.len() as int) =~= candidate@);
    let sub = chars_of(lang.language());
    full || eq_ignore_ascii_case_exec(sub.as_slice(), cs.as_slice())
}

/// A query that names no supported language is as if there were no query:
/// the cookie, then `Accept-Language`, then the default decide.
pub proof fn lemma_query_without_lang_defers(q: Seq<char>, cookie: Option<Seq<char>>, accept: Option<Seq<char>>)
    requires
        query_lang(q) is None,
    ensures
        detected_lang(Some(q), cookie, accept) == detected_lang(None, cookie, accept),
{
}

/// The sources are tried in order: a supported language in the query wins;
/// else a supported language in the cookie wins over `Accept-Language`;
/// else `Accept-Language`; else Simplified Chinese.
pub proof fn lemma_detection_order(query: Option<Seq<char>>, cookie: Option<Seq<char>>, accept: Option<Seq<char>>)
    ensures
        (query matches Some(q) && query_lang(q) is Some) ==> detected_lang(query, cookie, accept) == query_lang(
            query->0,
        )->0,
        ((query matches Some(q) ==> query_lang(q) is None) && (cookie matches Some(c) && cookie_lang(c) is Some))
            ==> detected_lang(query, cookie, accept) == cookie_lang(cookie->0)->0,
        (query matches Some(q) ==> query_lang(q) is None) && (cookie matches Some(c) ==> cookie_lang(c) is None)
            && (accept matches Some(a) && accept_language_lang(a) is Some) ==> detected_lang(query, cookie, accept)
            == accept_language_lang(accept->0)->0,
        (query matches Some(q) ==> query_lang(q) is None) && (cookie matches Some(c) ==> cookie_lang(c) is None)
            && (accept matches Some(a) ==> accept_language_lang(a) is None) ==> detected_lang(query, cookie, accept)
            == Lang::ZhCn,
{
}

} // verus!
