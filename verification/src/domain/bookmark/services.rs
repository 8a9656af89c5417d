//! Bookmark service rules that do not depend on the store.
use crate::domain::bookmark::error::BookmarkError;
use crate::domain::bookmark::models::{BookmarkBatchAdd, Category, Tag};
use crate::utils::text::chars_of;
use vstd::prelude::*;

verus! {

/// Strict lexicographic order of strings by their characters, the order in
/// which `str` values sort.
pub open spec fn lex_lt(a: Seq<char>, b: Seq<char>) -> bool
    decreases a.len(),
{
    if b.len() == 0 {
        false
    } else if a.len() == 0 {
        true
    } else if a[0] != b[0] {
        a[0] < b[0]
    } else {
        lex_lt(a.drop_first(), b.drop_first())
    }
}

/// No string is before itself.
pub proof fn lemma_lex_irreflexive(a: Seq<char>)
    ensures
        !lex_lt(a, a),
    decreases a.len(),
{
    if a.len() > 0 {
        lemma_lex_irreflexive(a.drop_first());
    }
}

/// Of two different strings one is before the other, and never both.
pub proof fn lemma_lex_total(a: Seq<char>, b: Seq<char>)
    ensures
        a != b ==> (lex_lt(a, b) || lex_lt(b, a)),
        !(lex_lt(a, b) && lex_lt(b, a)),
    decreases a.len(),
{
    if a.len() > 0 && b.len() > 0 && a[0] == b[0] {
        lemma_lex_total(a.drop_first(), b.drop_first());
        if a.drop_first() == b.drop_first() {
            assert(a =~= seq![a[0]] + a.drop_first());
            assert(b =~= seq![b[0]] + b.drop_first());
        }
    }
    if a.len() == 0 && b.len() == 0 {
        assert(a =~= b);
    }
}

/// The order is transitive.
pub proof fn lemma_lex_transitive(a: Seq<char>, b: Seq<char>, c: Seq<char>)
    requires
        lex_lt(a, b),
        lex_lt(b, c),
    ensures
        lex_lt(a, c),
    decreases a.len(),
{
    if a.len() > 0 && a[0] == b[0] && b[0] == c[0] {
        lemma_lex_transitive(a.drop_first(), b.drop_first(), c.drop_first());
    }
}

/// Each string before the next, so each string once.
pub open spec fn strictly_sorted(s: Seq<Seq<char>>) -> bool {
    forall|i: int, j: int| 0 <= i < j < s.len() ==> lex_lt(#[trigger] s[i], #[trigger] s[j])
}

/// Every category that an import names: those listed and those of its
/// bookmarks.
pub open spec fn named_category(categories: Seq<Seq<char>>, bookmarks: Seq<BookmarkBatchAdd>, name: Seq<char>) -> bool {
    categories.contains(name) || exists|k: int| 0 <= k < bookmarks.len() && (#[trigger] bookmarks[k]).category@ == name
}

/// Whether `a` sorts before `b`.
fn lex_less(a: &Vec<char>, b: &Vec<char>) -> (r: bool)
    ensures
        r == lex_lt(a@, b@),
{
    let mut i: usize = 0;
    assert(a@.skip(0) =~= a@);
    assert(b@.skip(0) =~= b@);
    while i < a.len() && i < b.len()
        invariant
            i <= a@.len(),
            i <= b@.len(),
            a@.subrange(0, i as int) == b@.subrange(0, i as int),
            lex_lt(a@, b@) == lex_lt(a@.skip(i as int), b@.skip(i as int)),
        decreases a.len() - i,
    {
        if a[i] != b[i] {
            let r = a[i] < b[i];
            assert(a@.skip(i as int)[0] == a@[i as int]);
            assert(b@.skip(i as int)[0] == b@[i as int]);
            return r;
        }
        assert(a@.skip(i as int).drop_first() =~= a@.skip(i + 1));
        assert(b@.skip(i as int).drop_first() =~= b@.skip(i + 1));
        assert(a@.subrange(0, i + 1) =~= a@.subrange(0, i as int).push(a@[i as int]));
        assert(b@.subrange(0, i + 1) =~= b@.subrange(0, i as int).push(b@[i as int]));
        i += 1;
    }
    i < b.len()
}

/// Puts `name` into the strictly sorted `names`, unless it is there already.
fn insert_sorted(names: &mut Vec<String>, name: &String)
    requires
        strictly_sorted(old(names).deep_view()),
    ensures
        strictly_sorted(final(names).deep_view()),
        forall|s: Seq<char>| #[trigger] final(names).deep_view().contains(s) <==> (old(names).deep_view().contains(s) || s == name@),
{
    let ghost before = names.deep_view();
    let x = chars_of(name.as_str());
    let mut k: usize = 0;
    while k < names.len()
        invariant
            k <= names@.len(),
            names.deep_view() == before,
            x@ == name@,
            strictly_sorted(before),
            forall|i: int| 0 <= i < k ==> lex_lt(#[trigger] before[i], name@),
        ensures
            k <= names@.len(),
            names.deep_view() == before,
            forall|i: int| 0 <= i < k ==> lex_lt(#[trigger] before[i], name@),
            k < names@.len() ==> !lex_lt(before[k as int], name@),
        decreases names.len() - k,
    {
        let y = chars_of(names[k].as_str());
        assert(y@ == before[k as int]);
        if !lex_less(&y, &x) {
            break;
        }
        k += 1;
    }
    if k < names.len() {
        let y = chars_of(names[k].as_str());
        if !lex_less(&x, &y) {
            proof {
                lemma_lex_total(x@, y@);
                assert(before[k as int] == name@);
            }
            return;
        }
    }
    proof {
        assert forall|j: int| k <= j < before.len() implies lex_lt(name@, #[trigger] before[j]) by {
            lemma_lex_total(name@, before[k as int]);
            if j > k {
                lemma_lex_transitive(name@, before[k as int], before[j]);
            }
        }
    }
    names.insert(k, name.clone());
    let ghost after = names.deep_view();
    assert(after =~= before.insert(k as int, name@)) by {
        assert forall|i: int| 0 <= i < after.len() implies after[i] == before.insert(k as int, name@)[i] by {
            if i < k {
                assert(after[i] == names@[i]@);
            } else if i == k {
                assert(after[i] == names@[i]@);
            } else {
                assert(after[i] == names@[i]@);
            }
        }
    }
    assert forall|s: Seq<char>| #[trigger] after.contains(s) <==> (before.contains(s) || s == name@) by {
        if after.contains(s) {
            let i = choose|i: int| 0 <= i < after.len() && after[i] == s;
            if i < k {
                assert(before[i] == s);
            } else if i > k {
                assert(before[i - 1] == s);
            }
        }
        if before.contains(s) {
            let i = choose|i: int| 0 <= i < before.len() && before[i] == s;
            if i < k {
                assert(after[i] == s);
            } else {
                assert(after[i + 1] == s);
            }
        }
        if s == name@ {
            assert(after[k as int] == s);
        }
    }
}

/// The category names that an import stores: the listed categories and the
/// categories of its bookmarks, sorted, each once.
pub fn batch_add_category_names(categories: &Vec<String>, bookmarks: &Vec<BookmarkBatchAdd>) -> (r: Vec<String>)
    ensures
        strictly_sorted(r.deep_view()),
        forall|s: Seq<char>| #[trigger] r.deep_view().contains(s) <==> named_category(categories.deep_view(), bookmarks@, s),
{
    let mut names: Vec<String> = Vec::new();
    let mut i: usize = 0;
    while i < categories.len()
        invariant
            i <= categories@.len(),
            strictly_sorted(names.deep_view()),
            forall|s: Seq<char>| #[trigger] names.deep_view().contains(s) <==> categories.deep_view().take(i as int).contains(s),
        decreases categories.len() - i,
    {
        let ghost prev = categories.deep_view().take(i as int);
        insert_sorted(&mut names, &categories[i]);
        proof {
            let next = categories.deep_view().take(i + 1);
            assert(next =~= prev.push(categories@[i as int]@));
            assert forall|s: Seq<char>| next.contains(s) <==> (prev.contains(s) || s == categories@[i as int]@) by {
                if next.contains(s) {
                    let j = choose|j: int| 0 <= j < next.len() && next[j] == s;
                    if j < i {
                        assert(prev[j] == s);
                    }
                }
                if prev.contains(s) {
                    let j = choose|j: int| 0 <= j < prev.len() && prev[j] == s;
                    assert(next[j] == s);
                }
                if s == categories@[i as int]@ {
                    assert(next[i as int] == s);
                }
            }
        }
        i += 1;
    }
    assert(categories.deep_view().take(categories@.len() as int) =~= categories.deep_view());
    let mut j: usize = 0;
    while j < bookmarks.len()
        invariant
            j <= bookmarks@.len(),
            strictly_sorted(names.deep_view()),
            forall|s: Seq<char>| #[trigger] names.deep_view().contains(s) <==> (categories.deep_view().contains(s)
                || exists|k: int| 0 <= k < j && (#[trigger] bookmarks@[k]).category@ == s),
        decreases bookmarks.len() - j,
    {
        insert_sorted(&mut names, &bookmarks[j].category);
        proof {
            assert forall|s: Seq<char>| #[trigger] names.deep_view().contains(s) <==> (categories.deep_view().contains(s)
                || exists|k: int| 0 <= k < j + 1 && (#[trigger] bookmarks@[k]).category@ == s) by {
                if s == bookmarks@[j as int].category@ {
                    assert(0 <= j < j + 1 && bookmarks@[j as int].category@ == s);
                }
                if exists|k: int| 0 <= k < j + 1 && (#[trigger] bookmarks@[k]).category@ == s {
                    let k = choose|k: int| 0 <= k < j + 1 && (#[trigger] bookmarks@[k]).category@ == s;
                    if k < j {
                        assert(0 <= k < j && bookmarks@[k].category@ == s);
                    }
                }
            }
        }
        j += 1;
    }
    names
}

/// Two strictly sorted lists that hold the same strings are the same list:
/// the names handed to the store depend only on which names occur.
pub proof fn lemma_sorted_names_unique(a: Seq<Seq<char>>, b: Seq<Seq<char>>)
    requires
        strictly_sorted(a),
        strictly_sorted(b),
        forall|s: Seq<char>| a.contains(s) <==> b.contains(s),
    ensures
        a == b,
    decreases a.len(),
{
    if a.len() == 0 {
        if b.len() > 0 {
            assert(b.contains(b[0]));
        }
        assert(a =~= b);
    } else if b.len() == 0 {
        assert(a.contains(a[0]));
    } else {
        // The first elements are the least of each list, so they agree.
        assert(a.contains(a[0]));
        assert(b.contains(b[0]));
        let i = choose|i: int| 0 <= i < b.len() && b[i] == a[0];
        let j = choose|j: int| 0 <= j < a.len() && a[j] == b[0];
        if i > 0 && j > 0 {
            assert(lex_lt(b[0], b[i]));
            assert(lex_lt(a[0], a[j]));
            lemma_lex_total(a[0], b[0]);
        }
        if i > 0 && j == 0 {
            assert(lex_lt(b[0], b[i]));
            lemma_lex_irreflexive(a[0]);
        }
        if i == 0 && j > 0 {
            assert(lex_lt(a[0], a[j]));
            lemma_lex_irreflexive(b[0]);
        }
        assert(a[0] == b[0]);
        let ra = a.drop_first();
        let rb = b.drop_first();
        assert forall|s: Seq<char>| ra.contains(s) <==> rb.contains(s) by {
            if ra.contains(s) {
                let p = choose|p: int| 0 <= p < ra.len() && ra[p] == s;
                assert(lex_lt(a[0], a[p + 1]));
                assert(a.contains(s));
                let q = choose|q: int| 0 <= q < b.len() && b[q] == s;
                if q == 0 {
                    lemma_lex_irreflexive(s);
                }
                assert(rb[q - 1] == s);
            }
            if rb.contains(s) {
                let p = choose|p: int| 0 <= p < rb.len() && rb[p] == s;
                assert(lex_lt(b[0], b[p + 1]));
                assert(b.contains(s));
                let q = choose|q: int| 0 <= q < a.len() && a[q] == s;
                if q == 0 {
                    lemma_lex_irreflexive(s);
                }
                assert(ra[q - 1] == s);
            }
        }
        assert(strictly_sorted(ra)) by {
            assert forall|x: int, y: int| 0 <= x < y < ra.len() implies lex_lt(#[trigger] ra[x], #[trigger] ra[y]) by {
                assert(ra[x] == a[x + 1] && ra[y] == a[y + 1]);
            }
        }
        assert(strictly_sorted(rb)) by {
            assert forall|x: int, y: int| 0 <= x < y < rb.len() implies lex_lt(#[trigger] rb[x], #[trigger] rb[y]) by {
                assert(rb[x] == b[x + 1] && rb[y] == b[y + 1]);
            }
        }
        lemma_sorted_names_unique(ra, rb);
        assert(a =~= seq![a[0]] + ra);
        assert(b =~= seq![b[0]] + rb);
    }
}

/// The categories and tags of the page header; a failed read stands as an
/// empty list.
pub fn categories_tags_or_default(
    categories: Result<Vec<Category>, BookmarkError>,
    tags: Result<Vec<Tag>, BookmarkError>,
) -> (r: (Vec<Category>, Vec<Tag>))
    ensures
        r.0@ == (match categories {
            Ok(c) => c@,
            Err(_) => Seq::<Category>::empty(),
        }),
        r.1@ == (match tags {
            Ok(t) => t@,
            Err(_) => Seq::<Tag>::empty(),
        }),
{
    let c = match categories {
        Ok(c) => c,
        Err(_) => Vec::new(),
    };
    let t = match tags {
        Ok(t) => t,
        Err(_) => Vec::new(),
    };
    (c, t)
}

} // verus!
