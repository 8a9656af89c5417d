//! Friendly messages for request bodies that failed to deserialize.
use crate::utils::text::{
    chars_of, contains_chars, contains_seq, find_in, find_seq, occurs_at, replace_all, replace_from, str_eq,
    string_of, trim, trim_bounds, trim_start_char, trim_start_char_bound,
};
use vstd::prelude::*;

verus! {

/// What `regex::Regex::new(pattern)` and then `Regex::captures(text)` give:
/// `None` when the pattern does not compile, `Some(None)` when it does not
/// match, else the text of capture groups 1, 2, ... of the leftmost match,
/// `None` for a group that took no part in it.
pub uninterp spec fn regex_first_captures(pattern: Seq<char>, text: Seq<char>) -> Option<
    Option<Seq<Option<Seq<char>>>>,
>;

/// Compiles `pattern` with `regex::Regex::new`, runs `Regex::captures` on
/// `text` and hands back the groups after the whole match, each as its text
/// or `None` where it took no part. Its result is stated only through
/// `regex_first_captures`.
#[verifier::external_body]
fn regex_captures(pattern: &str, text: &str) -> (r: Option<Option<Vec<Option<String>>>>)
    ensures
        r.deep_view() == regex_first_captures(pattern@, text@),
{
    match regex::Regex::new(pattern) {
        Ok(re) => match re.captures(text) {
            Some(caps) => {
                let mut found = Vec::new();
                for m in caps.iter().skip(1) {
                    found.push(match m { Some(m) => Some(m.as_str().to_string()), None => None });
                }
                Some(Some(found))
            },
            None => Some(None),
        },
        Err(_) => None,
    }
}

/// The text of a capture group; a group that took no part reads as empty.
pub open spec fn group_text(g: Option<Seq<char>>) -> Seq<char> {
    match g {
        Some(t) => t,
        None => Seq::<char>::empty(),
    }
}

pub const RE_MISSING_FIELD: &'static str = "missing field `(.+?)`";

pub const RE_INVALID_TYPE: &'static str = "invalid type: (.+?), expected (.+)";

pub const RE_INVALID_VALUE: &'static str = "invalid value: (.+?), expected (.+)";

pub const RE_UNKNOWN_FIELD: &'static str = "unknown field `(.+?)`";

pub const RE_DUPLICATE_FIELD: &'static str = "duplicate field `(.+?)`";

/// The first `n` groups of the match of `pattern` on `text`, when the pattern
/// compiles, matches and has that many groups.
pub open spec fn groups(pattern: Seq<char>, text: Seq<char>, n: nat) -> Option<Seq<Seq<char>>> {
    match regex_first_captures(pattern, text) {
        Some(Some(g)) => if g.len() >= n {
            Some(g.map_values(|x: Option<Seq<char>>| group_text(x)))
        } else {
            None
        },
        _ => None,
    }
}

/// The part of `s` before the first occurrence of `pat` (all of `s` when
/// there is none): `s.split(pat).next()`.
pub open spec fn before_first(s: Seq<char>, pat: Seq<char>) -> Seq<char> {
    match find_seq(s, pat) {
        Some(k) => s.subrange(0, k),
        None => s,
    }
}

/// `x.trim().replace("a ", "").replace("an ", "")`.
pub open spec fn expected_kind(x: Seq<char>) -> Seq<char> {
    replace_all(replace_all(trim(x), "a "@, ""@), "an "@, ""@)
}

/// The field named in messages: the path without its leading dots, or the
/// source's name for the root.
pub open spec fn display_field(path: Seq<char>, source_name: Seq<char>) -> Seq<char> {
    if path.len() == 0 || path == "."@ {
        source_name
    } else {
        trim_start_char(path, '.')
    }
}

/// The message for a deserialization error `raw_err` at `path` of the
/// source named `source_name`; rules are tried in order, the first that
/// applies gives the message.
pub open spec fn deserialization_message(
    path: Seq<char>,
    raw_err: Seq<char>,
    source_name: Seq<char>,
) -> Seq<char> {
    rule_message(before_first(raw_err, " at line "@), display_field(path, source_name), source_name)
}

/// The message for the error text `err` about `field`: the rules in order.
pub open spec fn rule_message(err: Seq<char>, field: Seq<char>, source_name: Seq<char>) -> Seq<
    char,
> {
    if let Some(g) = groups(RE_MISSING_FIELD@, err, 1) {
        "need "@ + g[0] + " field"@
    } else if let Some(g) = groups(RE_INVALID_TYPE@, err, 2) {
        "field '"@ + field + "' must be a "@ + expected_kind(g[1])
    } else if let Some(g) = groups(RE_INVALID_VALUE@, err, 2) {
        "field '"@ + field + "' has invalid value, expected "@ + expected_kind(g[1])
    } else if let Some(g) = groups(RE_DUPLICATE_FIELD@, err, 1) {
        "field '"@ + g[0] + "' is duplicated"@
    } else if let Some(g) = groups(RE_UNKNOWN_FIELD@, err, 1) {
        "field '"@ + g[0] + "' is not allowed"@
    } else if contains_seq(err, "EOF"@) || contains_seq(err, "predetermined"@) {
        "invalid "@ + source_name + " format"@
    } else if contains_seq(err, "custom error"@) {
        replace_all(err, "custom error: "@, ""@)
    } else {
        "invalid data at '"@ + field + "': "@ + err
    }
}

fn groups_exec(pattern: &str, text: &str, n: usize) -> (r: Option<Vec<String>>)
    ensures
        r.deep_view() == groups(pattern@, text@, n as nat),
        r matches Some(v) ==> v@.len() >= n,
{
    match regex_captures(pattern, text) {
        Some(Some(g)) => {
            if g.len() >= n {
                let mut texts: Vec<String> = Vec::new();
                let mut i: usize = 0;
                while i < g.len()
                    invariant
                        i <= g@.len(),
                        texts.deep_view() == g.deep_view().take(i as int).map_values(
                            |x: Option<Seq<char>>| group_text(x),
                        ),
                    decreases g.len() - i,
                {
                    let t = match &g[i] {
                        Some(t) => t.clone(),
                        None => String::new(),
                    };
                    assert(g.deep_view()[i as int] == g@[i as int].deep_view());
                    assert(t@ == group_text(g.deep_view()[i as int]));
                    let ghost before = texts.deep_view();
                    texts.push(t);
                    assert(texts.deep_view() =~= before.push(t@));
                    assert(g.deep_view().take(i + 1) =~= g.deep_view().take(i as int).push(g.deep_view()[i as int]));
                    assert(texts.deep_view() =~= g.deep_view().take(i + 1).map_values(|x: Option<Seq<char>>| group_text(x)));
                    i += 1;
                }
                assert(g.deep_view().take(g@.len() as int) =~= g.deep_view());
                Some(texts)
            } else {
                None
            }
        },
        _ => None,
    }
}

fn concat3(a: &str, b: &str, c: &str) -> (r: String)
    ensures
        r@ == a@ + b@ + c@,
{
    let mut r = String::from_str(a);
    r.append(b);
    r.append(c);
    r
}

fn concat4(a: &str, b: &str, c: &str, d: &str) -> (r: String)
    ensures
        r@ == a@ + b@ + c@ + d@,
{
    let mut r = concat3(a, b, c);
    r.append(d);
    r
}

fn expected_kind_exec(x: &str) -> (r: String)
    ensures
        r@ == expected_kind(x@),
{
    let cs = chars_of(x);
    let (a, b) = trim_bounds(cs.as_slice(), 0, cs.len());
    let trimmed = string_of(cs.as_slice(), a, b);
    assert(cs@.subrange(0, cs@.len() as int) =~= cs@);
    let t1 = chars_of(trimmed.as_str());
    let pa = chars_of("a ");
    let pan = chars_of("an ");
    proof {
        reveal_strlit("a ");
        reveal_strlit("an ");
    }
    let r1 = replace_from(t1.as_slice(), 0, pa.as_slice(), "");
    assert(t1@.subrange(0, t1@.len() as int) =~= t1@);
    let t2 = chars_of(r1.as_str());
    let r2 = replace_from(t2.as_slice(), 0, pan.as_slice(), "");
    assert(t2@.subrange(0, t2@.len() as int) =~= t2@);
    r2
}

fn rule_message_exec(err: &str, field: &str, source_name: &str) -> (r: String)
    ensures
        r@ == rule_message(err@, field@, source_name@),
{
    if let Some(g) = groups_exec(RE_MISSING_FIELD, err, 1) {
        return concat3("need ", g[0].as_str(), " field");
    }
    if let Some(g) = groups_exec(RE_INVALID_TYPE, err, 2) {
        let e = expected_kind_exec(g[1].as_str());
        return concat4("field '", field, "' must be a ", e.as_str());
    }
    if let Some(g) = groups_exec(RE_INVALID_VALUE, err, 2) {
        let e = expected_kind_exec(g[1].as_str());
        return concat4("field '", field, "' has invalid value, expected ", e.as_str());
    }
    if let Some(g) = groups_exec(RE_DUPLICATE_FIELD, err, 1) {
        return concat3("field '", g[0].as_str(), "' is duplicated");
    }
    if let Some(g) = groups_exec(RE_UNKNOWN_FIELD, err, 1) {
        return concat3("field '", g[0].as_str(), "' is not allowed");
    }
    let ec = chars_of(err);
    if contains_chars(ec.as_slice(), chars_of("EOF").as_slice()) || contains_chars(
        ec.as_slice(),
        chars_of("predetermined").as_slice(),
    ) {
        return concat3("invalid ", source_name, " format");
    }
    if contains_chars(ec.as_slice(), chars_of("custom error").as_slice()) {
        let pat = chars_of("custom error: ");
        proof {
            reveal_strlit("custom error: ");
        }
        let r = replace_from(ec.as_slice(), 0, pat.as_slice(), "");
        assert(ec@.subrange(0, ec@.len() as int) =~= ec@);
        return r;
    }
    concat4("invalid data at '", field, "': ", err)
}

/// Turns a deserialization error into a short message naming the offending
/// field. `path` is the rendered path of the field (as
/// `serde_path_to_error::Path` displays it), `raw_err` the error's text.
pub fn format_deserialization_error(path: &str, raw_err: &str, source_name: &str) -> (r: String)
    ensures
        r@ == deserialization_message(path@, raw_err@, source_name@),
{
    let raw = chars_of(raw_err);
    let at_line = chars_of(" at line ");
    let err_end = match find_in(raw.as_slice(), 0, raw.len(), at_line.as_slice()) {
        Some(k) => k,
        None => raw.len(),
    };
    assert(raw@.subrange(0, raw@.len() as int) =~= raw@);
    let err = string_of(raw.as_slice(), 0, err_end);
    let pc = chars_of(path);
    let field = if pc.len() == 0 || str_eq(path, ".") {
        String::from_str(source_name)
    } else {
        let k = trim_start_char_bound(pc.as_slice(), 0, pc.len(), '.');
        assert(pc@.subrange(0, pc@.len() as int) =~= pc@);
        string_of(pc.as_slice(), k, pc.len())
    };
    rule_message_exec(err.as_str(), field.as_str(), source_name)
}

/// Everything from the first ` at line ` on is ignored: when the error text
/// is `s`, then ` at line `, then anything, and no ` at line ` starts inside
/// `s` (one may start in its last characters and run on), the message is the
/// one for `s` alone.
pub proof fn lemma_position_suffix_ignored(path: Seq<char>, s: Seq<char>, rest: Seq<char>, source_name: Seq<char>)
    requires
        forall|j: int| 0 <= j < s.len() ==> !occurs_at(s + " at line "@ + rest, j, " at line "@),
    ensures
        deserialization_message(path, s + " at line "@ + rest, source_name) == deserialization_message(path, s, source_name),
{
    let pat = " at line "@;
    reveal_strlit(" at line ");
    let joined = s + pat + rest;
    assert(joined.subrange(s.len() as int, (s.len() + pat.len()) as int) =~= pat);
    assert(occurs_at(joined, s.len() as int, pat));
    assert(contains_seq(joined, pat));
    let k = choose|k: int| occurs_at(joined, k, pat) && forall|j: int| 0 <= j < k ==> !occurs_at(joined, j, pat);
    assert(find_seq(joined, pat) == Some(k));
    assert(k == s.len());
    assert(joined.subrange(0, k) =~= s);
    assert(before_first(joined, pat) == s);
    assert(!contains_seq(s, pat)) by {
        if contains_seq(s, pat) {
            let j = choose|j: int| occurs_at(s, j, pat);
            assert(joined.subrange(j, j + pat.len()) =~= s.subrange(j, j + pat.len()));
            assert(occurs_at(joined, j, pat));
        }
    }
    assert(before_first(s, pat) == s);
}

} // verus!
