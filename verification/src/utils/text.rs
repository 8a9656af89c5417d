//! Character-level text handling used across the application: whitespace
//! trimming, splitting on a separator, decimal integers and joining.
use vstd::prelude::*;

verus! {

/// Rust's `char::is_whitespace`: the Unicode `White_Space` property.
pub open spec fn is_ws(c: char) -> bool {
    let u = c as u32;
    ||| 0x9 <= u <= 0xD
    ||| u == 0x20
    ||| u == 0x85
    ||| u == 0xA0
    ||| u == 0x1680
    ||| 0x2000 <= u <= 0x200A
    ||| u == 0x2028
    ||| u == 0x2029
    ||| u == 0x202F
    ||| u == 0x205F
    ||| u == 0x3000
}

/// `str::trim_start`: drop leading whitespace.
pub open spec fn trim_start(s: Seq<char>) -> Seq<char>
    decreases s.len(),
{
    if s.len() > 0 && is_ws(s[0]) {
        trim_start(s.drop_first())
    } else {
        s
    }
}

/// `str::trim_end`: drop trailing whitespace.
pub open spec fn trim_end(s: Seq<char>) -> Seq<char>
    decreases s.len(),
{
    if s.len() > 0 && is_ws(s.last()) {
        trim_end(s.drop_last())
    } else {
        s
    }
}

/// `str::trim`.
pub open spec fn trim(s: Seq<char>) -> Seq<char> {
    trim_end(trim_start(s))
}

pub fn char_is_ws(c: char) -> (b: bool)
    ensures
        b == is_ws(c),
{
    let u = c as u32;
    (0x9 <= u && u <= 0xD) || u == 0x20 || u == 0x85 || u == 0xA0 || u == 0x1680 || (0x2000 <= u
        && u <= 0x200A) || u == 0x2028 || u == 0x2029 || u == 0x202F || u == 0x205F || u == 0x3000
}

/// Appends one character to a string (`String::push`).
#[verifier::external_body]
pub(crate) fn push_char(s: &mut String, c: char)
    ensures
        final(s)@ == old(s)@.push(c),
{
    s.push(c)
}

/// The characters of a string slice.
pub fn chars_of(s: &str) -> (v: Vec<char>)
    ensures
        v@ == s@,
{
    let n = s.unicode_len();
    let mut v: Vec<char> = Vec::new();
    let mut i: usize = 0;
    while i < n
        invariant
            n == s@.len(),
            i <= n,
            v@ == s@.subrange(0, i as int),
        decreases n - i,
    {
        let c = s.get_char(i);
        v.push(c);
        i += 1;
        assert(v@ =~= s@.subrange(0, i as int));
    }
    assert(v@ =~= s@);
    v
}

/// A string holding the characters `s[from..to]`.
pub fn string_of(s: &[char], from: usize, to: usize) -> (r: String)
    requires
        from <= to <= s@.len(),
    ensures
        r@ == s@.subrange(from as int, to as int),
{
    let mut r = String::new();
    let mut i = from;
    while i < to
        invariant
            from <= i <= to,
            to <= s@.len(),
            r@ == s@.subrange(from as int, i as int),
        decreases to - i,
    {
        push_char(&mut r, s[i]);
        i += 1;
        assert(r@ =~= s@.subrange(from as int, i as int));
    }
    r
}

proof fn lemma_trim_start_skip(s: Seq<char>, i: int)
    requires
        0 <= i < s.len(),
        is_ws(s[i]),
    ensures
        trim_start(s.subrange(i, s.len() as int)) == trim_start(s.subrange(i + 1, s.len() as int)),
{
    assert(s.subrange(i, s.len() as int).drop_first() =~= s.subrange(i + 1, s.len() as int));
}

proof fn lemma_trim_end_skip(s: Seq<char>, a: int, j: int)
    requires
        0 <= a < j <= s.len(),
        is_ws(s[j - 1]),
    ensures
        trim_end(s.subrange(a, j)) == trim_end(s.subrange(a, j - 1)),
{
    assert(s.subrange(a, j).drop_last() =~= s.subrange(a, j - 1));
}

/// The bounds of `trim(s[from..to])` inside `s`.
pub fn trim_bounds(s: &[char], from: usize, to: usize) -> (r: (usize, usize))
    requires
        from <= to <= s@.len(),
    ensures
        from <= r.0 <= r.1 <= to,
        s@.subrange(r.0 as int, r.1 as int) == trim(s@.subrange(from as int, to as int)),
{
    let ghost t = s@.subrange(from as int, to as int);
    let mut i = from;
    while i < to && char_is_ws(s[i])
        invariant
            from <= i <= to,
            to <= s@.len(),
            t == s@.subrange(from as int, to as int),
            trim_start(t) == trim_start(s@.subrange(i as int, to as int)),
        decreases to - i,
    {
        proof {
            let u = s@.subrange(0, to as int);
            lemma_trim_start_skip(u, i as int);
            assert(u.subrange(i as int, to as int) =~= s@.subrange(i as int, to as int));
            assert(u.subrange(i + 1, to as int) =~= s@.subrange(i + 1, to as int));
        }
        i += 1;
    }
    assert(trim_start(s@.subrange(i as int, to as int)) == s@.subrange(i as int, to as int));
    let mut j = to;
    while j > i && char_is_ws(s[j - 1])
        invariant
            from <= i <= j <= to,
            to <= s@.len(),
            t == s@.subrange(from as int, to as int),
            trim_start(t) == s@.subrange(i as int, to as int),
            trim_end(s@.subrange(i as int, to as int)) == trim_end(s@.subrange(i as int, j as int)),
        decreases j - i,
    {
        proof {
            lemma_trim_end_skip(s@, i as int, j as int);
        }
        j -= 1;
    }
    assert(trim_end(s@.subrange(i as int, j as int)) == s@.subrange(i as int, j as int));
    (i, j)
}


/// `str::split(sep)` on a single character separator: the pieces between
/// separators, always at least one.
pub open spec fn split_char(s: Seq<char>, sep: char) -> Seq<Seq<char>>
    decreases s.len(),
{
    if s.len() == 0 {
        seq![Seq::empty()]
    } else {
        let r = split_char(s.drop_last(), sep);
        if s.last() == sep {
            r.push(Seq::empty())
        } else {
            r.update(r.len() - 1, r.last().push(s.last()))
        }
    }
}

pub proof fn lemma_split_len(s: Seq<char>, sep: char)
    ensures
        split_char(s, sep).len() >= 1,
    decreases s.len(),
{
    if s.len() > 0 {
        lemma_split_len(s.drop_last(), sep);
    }
}

/// The pieces of `s[from..to]` split at `sep`, as bounds inside `s`.
pub fn split_bounds(s: &[char], from: usize, to: usize, sep: char) -> (r: Vec<(usize, usize)>)
    requires
        from <= to <= s@.len(),
    ensures
        r@.len() == split_char(s@.subrange(from as int, to as int), sep).len(),
        forall|k: int|
            0 <= k < r@.len() ==> from <= (#[trigger] r@[k]).0 <= r@[k].1 <= to && s@.subrange(
                r@[k].0 as int,
                r@[k].1 as int,
            ) == split_char(s@.subrange(from as int, to as int), sep)[k],
{
    let mut r: Vec<(usize, usize)> = Vec::new();
    let mut start = from;
    let mut i = from;
    while i < to
        invariant
            from <= start <= i <= to,
            to <= s@.len(),
            r@.len() + 1 == split_char(s@.subrange(from as int, i as int), sep).len(),
            s@.subrange(start as int, i as int) == split_char(
                s@.subrange(from as int, i as int),
                sep,
            ).last(),
            forall|k: int|
                0 <= k < r@.len() ==> from <= (#[trigger] r@[k]).0 <= r@[k].1 <= i
                    && s@.subrange(r@[k].0 as int, r@[k].1 as int) == split_char(
                    s@.subrange(from as int, i as int),
                    sep,
                )[k],
        decreases to - i,
    {
        let ghost prev = s@.subrange(from as int, i as int);
        let ghost next = s@.subrange(from as int, i + 1);
        assert(next.drop_last() =~= prev);
        assert(next.last() == s@[i as int]);
        proof {
            lemma_split_len(prev, sep);
        }
        if s[i] == sep {
            r.push((start, i));
            start = i + 1;
            assert(s@.subrange(start as int, i + 1) =~= Seq::<char>::empty());
        } else {
            assert(s@.subrange(start as int, i + 1) =~= s@.subrange(start as int, i as int).push(
                s@[i as int],
            ));
        }
        i += 1;
    }
    r.push((start, to));
    proof {
        lemma_split_len(s@.subrange(from as int, to as int), sep);
    }
    r
}

pub open spec fn is_digit(c: char) -> bool {
    '0' <= c && c <= '9'
}

pub open spec fn digit_value(c: char) -> int {
    (c as int) - ('0' as int)
}

pub open spec fn all_digits(s: Seq<char>) -> bool {
    forall|i: int| 0 <= i < s.len() ==> is_digit(#[trigger] s[i])
}

/// The value of a run of decimal digits (leading zeros allowed).
pub open spec fn digits_value(s: Seq<char>) -> int
    decreases s.len(),
{
    if s.len() == 0 {
        0
    } else {
        digits_value(s.drop_last()) * 10 + digit_value(s.last())
    }
}

/// `<i32 as FromStr>::from_str`: an optional `+` or `-` sign followed by at
/// least one decimal digit, whose value fits in an `i32`.
pub open spec fn parse_i32(s: Seq<char>) -> Option<i32> {
    if s.len() == 0 {
        None
    } else {
        let signed = s[0] == '+' || s[0] == '-';
        let digits = if signed {
            s.drop_first()
        } else {
            s
        };
        let v = if s[0] == '-' {
            -digits_value(digits)
        } else {
            digits_value(digits)
        };
        if digits.len() == 0 || !all_digits(digits) {
            None
        } else if i32::MIN <= v <= i32::MAX {
            Some(v as i32)
        } else {
            None
        }
    }
}

proof fn lemma_digits_value_nonneg(s: Seq<char>)
    requires
        all_digits(s),
    ensures
        digits_value(s) >= 0,
    decreases s.len(),
{
    if s.len() > 0 {
        lemma_digits_value_nonneg(s.drop_last());
    }
}

/// A longer run of digits is worth at least as much as its prefix.
proof fn lemma_digits_value_mono(s: Seq<char>, i: int)
    requires
        all_digits(s),
        0 <= i <= s.len(),
    ensures
        digits_value(s.subrange(0, i)) <= digits_value(s),
    decreases s.len() - i,
{
    if i < s.len() {
        lemma_digits_value_mono(s, i + 1);
        let p = s.subrange(0, i + 1);
        assert(p.drop_last() =~= s.subrange(0, i));
        lemma_digits_value_nonneg(s.subrange(0, i));
    } else {
        assert(s.subrange(0, i) =~= s);
    }
}

/// Parses `s[from..to]` as an `i32`, as `str::parse::<i32>` does.
pub fn parse_i32_slice(s: &[char], from: usize, to: usize) -> (r: Option<i32>)
    requires
        from <= to <= s@.len(),
    ensures
        r == parse_i32(s@.subrange(from as int, to as int)),
{
    let ghost t = s@.subrange(from as int, to as int);
    if from == to {
        return None;
    }
    let neg = s[from] == '-';
    let start = if s[from] == '+' || s[from] == '-' {
        from + 1
    } else {
        from
    };
    let ghost digits = s@.subrange(start as int, to as int);
    assert(digits =~= (if t[0] == '+' || t[0] == '-' {
        t.drop_first()
    } else {
        t
    }));
    if start == to {
        return None;
    }
    let limit: i64 = if neg {
        2147483648
    } else {
        2147483647
    };
    let mut acc: i64 = 0;
    let mut i = start;
    while i < to
        invariant
            start <= i <= to,
            to <= s@.len(),
            digits == s@.subrange(start as int, to as int),
            all_digits(s@.subrange(start as int, i as int)),
            acc == digits_value(s@.subrange(start as int, i as int)),
            0 <= acc <= limit,
            limit == (if neg {
                2147483648int
            } else {
                2147483647int
            }),
            t == s@.subrange(from as int, to as int),
            t.len() > 0,
            neg == (t[0] == '-'),
            digits.len() > 0,
            digits == (if t[0] == '+' || t[0] == '-' {
                t.drop_first()
            } else {
                t
            }),
        decreases to - i,
    {
        let c = s[i];
        let ghost prev = s@.subrange(start as int, i as int);
        let ghost next = s@.subrange(start as int, i + 1);
        assert(next.drop_last() =~= prev);
        if !('0' <= c && c <= '9') {
            assert(digits[i - start] == c);
            return None;
        }
        let d = (c as u32 - '0' as u32) as i64;
        acc = acc * 10 + d;
        i += 1;
        if acc > limit {
            proof {
                if all_digits(digits) {
                    lemma_digits_value_mono(digits, i - start);
                    assert(digits.subrange(0, i - start) =~= next);
                }
            }
            return None;
        }
    }
    assert(s@.subrange(start as int, i as int) =~= digits);
    if neg {
        Some((0 - acc) as i32)
    } else {
        Some(acc as i32)
    }
}


/// The character of a decimal digit `0..=9`.
pub open spec fn digit_char(d: int) -> char {
    (d + 48) as char
}

/// The decimal digits of a natural number, without leading zeros.
pub open spec fn nat_decimal(n: nat) -> Seq<char>
    decreases n,
{
    if n < 10 {
        seq![digit_char(n as int)]
    } else {
        nat_decimal(n / 10).push(digit_char((n % 10) as int))
    }
}

/// `ToString` of an integer: a `-` sign for negative values, then the digits.
pub open spec fn int_decimal(v: int) -> Seq<char> {
    if v < 0 {
        seq!['-'] + nat_decimal((-v) as nat)
    } else {
        nat_decimal(v as nat)
    }
}

fn push_nat_decimal(out: &mut String, n: u64)
    ensures
        final(out)@ == old(out)@ + nat_decimal(n as nat),
    decreases n,
{
    if n >= 10 {
        push_nat_decimal(out, n / 10);
    }
    let d = (n % 10) as u8;
    let c = (48u8 + d) as char;
    assert(c == digit_char((n % 10) as int));
    push_char(out, c);
    proof {
        if n >= 10 {
            assert(nat_decimal(n as nat) == nat_decimal((n / 10) as nat).push(digit_char((n % 10) as int)));
        }
    }
    assert(final(out)@ =~= old(out)@ + nat_decimal(n as nat));
}

/// Appends the decimal form of `v` to `out`.
pub fn push_decimal(out: &mut String, v: i64)
    ensures
        final(out)@ == old(out)@ + int_decimal(v as int),
{
    if v < 0 {
        let m = (0 - (v as i128)) as u64;
        push_char(out, '-');
        push_nat_decimal(out, m);
        assert(final(out)@ =~= old(out)@ + int_decimal(v as int));
    } else {
        push_nat_decimal(out, v as u64);
    }
}

/// `v.to_string()`.
pub fn decimal_string(v: i64) -> (r: String)
    ensures
        r@ == int_decimal(v as int),
{
    let mut r = String::new();
    push_decimal(&mut r, v);
    assert(r@ =~= int_decimal(v as int));
    r
}

pub proof fn lemma_nat_decimal(n: nat)
    ensures
        nat_decimal(n).len() >= 1,
        all_digits(nat_decimal(n)),
        digits_value(nat_decimal(n)) == n,
        forall|i: int| 0 <= i < nat_decimal(n).len() ==> !is_ws(#[trigger] nat_decimal(n)[i]),
    decreases n,
{
    if n >= 10 {
        lemma_nat_decimal(n / 10);
        let s = nat_decimal(n);
        assert(s.drop_last() =~= nat_decimal(n / 10));
        assert(digit_value(digit_char((n % 10) as int)) == n % 10);
        assert((n / 10) * 10 + n % 10 == n);
        assert(digits_value(s) == n);
    } else {
        assert(digit_value(digit_char(n as int)) == n);
        let s = nat_decimal(n);
        assert(s.drop_last() =~= Seq::<char>::empty());
        assert(s.last() == digit_char(n as int));
        assert(digits_value(s.drop_last()) == 0);
        assert(digits_value(s) == n);
    }
}

/// Every integer reads back from its decimal form.
pub proof fn lemma_parse_int_decimal(v: i32)
    ensures
        parse_i32(int_decimal(v as int)) == Some(v),
{
    if v < 0 {
        let m = (-v) as nat;
        lemma_nat_decimal(m);
        let s = int_decimal(v as int);
        assert(s.drop_first() =~= nat_decimal(m));
    } else {
        lemma_nat_decimal(v as nat);
    }
}

/// A decimal form is its own trimmed form.
pub proof fn lemma_int_decimal_trimmed(v: int)
    ensures
        trim(int_decimal(v)) == int_decimal(v),
{
    let s = int_decimal(v);
    if v < 0 {
        lemma_nat_decimal((-v) as nat);
        assert(s[s.len() - 1] == nat_decimal((-v) as nat)[s.len() - 2]);
    } else {
        lemma_nat_decimal(v as nat);
    }
    assert(!is_ws(s[0]));
    assert(!is_ws(s.last()));
}

/// `pieces.join(sep)`.
pub open spec fn join_with(pieces: Seq<Seq<char>>, sep: Seq<char>) -> Seq<char>
    decreases pieces.len(),
{
    if pieces.len() == 0 {
        Seq::empty()
    } else if pieces.len() == 1 {
        pieces[0]
    } else {
        join_with(pieces.drop_last(), sep) + sep + pieces.last()
    }
}

/// The decimal forms of a list of integers.
pub open spec fn decimals(ids: Seq<i32>) -> Seq<Seq<char>> {
    ids.map_values(|x: i32| int_decimal(x as int))
}

/// Joins the decimal forms of `ids` with `sep` between them.
pub fn join_decimals(ids: &[i32], sep: char) -> (r: String)
    ensures
        r@ == join_with(decimals(ids@), seq![sep]),
{
    let mut r = String::new();
    let mut i: usize = 0;
    while i < ids.len()
        invariant
            i <= ids@.len(),
            r@ == join_with(decimals(ids@).take(i as int), seq![sep]),
        decreases ids@.len() - i,
    {
        let ghost before = r@;
        if i > 0 {
            push_char(&mut r, sep);
        }
        push_decimal(&mut r, ids[i] as i64);
        proof {
            let t = decimals(ids@).take(i + 1);
            assert(t.drop_last() =~= decimals(ids@).take(i as int));
            if i == 0 {
                assert(r@ =~= t[0]);
            } else {
                assert(r@ =~= before + seq![sep] + t.last());
            }
        }
        i += 1;
    }
    assert(decimals(ids@).take(ids@.len() as int) =~= decimals(ids@));
    r
}

proof fn lemma_split_append_plain(p: Seq<char>, y: Seq<char>, sep: char)
    requires
        !y.contains(sep),
    ensures
        split_char(p + y, sep) == split_char(p, sep).update(
            split_char(p, sep).len() - 1,
            split_char(p, sep).last() + y,
        ),
    decreases y.len(),
{
    lemma_split_len(p, sep);
    if y.len() == 0 {
        assert(p + y =~= p);
        assert(split_char(p, sep).last() + y =~= split_char(p, sep).last());
        assert(split_char(p, sep).update(split_char(p, sep).len() - 1, split_char(p, sep).last())
            =~= split_char(p, sep));
    } else {
        let y2 = y.drop_last();
        assert(!y2.contains(sep)) by {
            if y2.contains(sep) {
                let k = choose|k: int| 0 <= k < y2.len() && y2[k] == sep;
                assert(y[k] == sep);
            }
        }
        lemma_split_append_plain(p, y2, sep);
        assert((p + y).drop_last() =~= p + y2);
        assert((p + y).last() == y.last());
        assert(y.last() != sep) by {
            assert(y[y.len() - 1] == y.last());
        }
        let r = split_char(p, sep);
        assert(r.last() + y =~= (r.last() + y2).push(y.last()));
        assert(split_char(p + y, sep) =~= r.update(r.len() - 1, r.last() + y));
    }
}

/// Splitting a joined list of pieces gives the pieces back, when no piece
/// holds the separator.
pub proof fn lemma_split_join(pieces: Seq<Seq<char>>, sep: char)
    requires
        pieces.len() >= 1,
        forall|k: int| 0 <= k < pieces.len() ==> !(#[trigger] pieces[k]).contains(sep),
    ensures
        split_char(join_with(pieces, seq![sep]), sep) == pieces,
    decreases pieces.len(),
{
    if pieces.len() == 1 {
        lemma_split_append_plain(Seq::empty(), pieces[0], sep);
        assert(Seq::<char>::empty() + pieces[0] =~= pieces[0]);
        assert(split_char(pieces[0], sep) =~= pieces);
    } else {
        let init = pieces.drop_last();
        lemma_split_join(init, sep);
        let j = join_with(init, seq![sep]);
        let js = j + seq![sep];
        assert(js.drop_last() =~= j);
        assert(split_char(js, sep) == init.push(Seq::empty()));
        assert(pieces.last() == pieces[pieces.len() - 1]);
        lemma_split_append_plain(js, pieces.last(), sep);
        assert(Seq::<char>::empty() + pieces.last() =~= pieces.last());
        assert(join_with(pieces, seq![sep]) =~= js + pieces.last());
        assert(split_char(join_with(pieces, seq![sep]), sep) =~= pieces);
    }
}


/// `pat` occurs in `s` starting at index `k`.
pub open spec fn occurs_at(s: Seq<char>, k: int, pat: Seq<char>) -> bool {
    0 <= k && k + pat.len() <= s.len() && s.subrange(k, k + pat.len()) == pat
}

/// `s.contains(pat)` for a string pattern.
pub open spec fn contains_seq(s: Seq<char>, pat: Seq<char>) -> bool {
    exists|k: int| occurs_at(s, k, pat)
}

/// The first index at which `pat` occurs in `s` (`str::find`).
pub open spec fn find_seq(s: Seq<char>, pat: Seq<char>) -> Option<int> {
    if contains_seq(s, pat) {
        Some(
            choose|k: int|
                occurs_at(s, k, pat) && forall|j: int| 0 <= j < k ==> !occurs_at(s, j, pat),
        )
    } else {
        None
    }
}

/// Equality of `a[af..at]` and `b[bf..bt]`.
pub fn slice_range_eq(a: &[char], af: usize, at: usize, b: &[char], bf: usize, bt: usize) -> (r:
    bool)
    requires
        af <= at <= a@.len(),
        bf <= bt <= b@.len(),
    ensures
        r == (a@.subrange(af as int, at as int) == b@.subrange(bf as int, bt as int)),
{
    if at - af != bt - bf {
        assert(a@.subrange(af as int, at as int).len() != b@.subrange(bf as int, bt as int).len());
        return false;
    }
    let n = at - af;
    let ghost sa = a@.subrange(af as int, at as int);
    let ghost sb = b@.subrange(bf as int, bt as int);
    let mut i: usize = 0;
    while i < n
        invariant
            n == at - af,
            n == bt - bf,
            af <= at <= a@.len(),
            bf <= bt <= b@.len(),
            sa == a@.subrange(af as int, at as int),
            sb == b@.subrange(bf as int, bt as int),
            i <= n,
            forall|j: int| 0 <= j < i ==> sa[j] == sb[j],
        decreases n - i,
    {
        if a[af + i] != b[bf + i] {
            assert(sa[i as int] != sb[i as int]);
            return false;
        }
        i += 1;
    }
    assert(sa =~= sb);
    true
}

/// String equality.
pub fn str_eq(a: &str, b: &str) -> (r: bool)
    ensures
        r == (a@ == b@),
{
    let x = chars_of(a);
    let y = chars_of(b);
    let r = slice_range_eq(x.as_slice(), 0, x.len(), y.as_slice(), 0, y.len());
    assert(x@.subrange(0, x@.len() as int) =~= x@);
    assert(y@.subrange(0, y@.len() as int) =~= y@);
    r
}

/// Whether `pat` occurs in `s[from..to]` at index `k` (an absolute index).
pub fn occurs_at_exec(s: &[char], from: usize, to: usize, k: usize, pat: &[char]) -> (r: bool)
    requires
        from <= k <= to <= s@.len(),
    ensures
        r == occurs_at(s@.subrange(from as int, to as int), k - from, pat@),
{
    let ghost t = s@.subrange(from as int, to as int);
    if pat.len() > to - k {
        return false;
    }
    let r = slice_range_eq(s, k, k + pat.len(), pat, 0, pat.len());
    assert(pat@.subrange(0, pat@.len() as int) =~= pat@);
    assert(t.subrange(k - from, k - from + pat@.len()) =~= s@.subrange(
        k as int,
        k + pat@.len(),
    ));
    r
}

/// The first occurrence of `pat` in `s[from..to]`, as an index relative to
/// `from`.
pub fn find_in(s: &[char], from: usize, to: usize, pat: &[char]) -> (r: Option<usize>)
    requires
        from <= to <= s@.len(),
    ensures
        r matches Some(k) ==> find_seq(s@.subrange(from as int, to as int), pat@) == Some(k as int)
            && k + pat@.len() <= to - from,
        r is None ==> find_seq(s@.subrange(from as int, to as int), pat@) is None,
{
    let ghost t = s@.subrange(from as int, to as int);
    let mut k = from;
    loop
        invariant
            from <= k <= to,
            to <= s@.len(),
            t == s@.subrange(from as int, to as int),
            forall|j: int| 0 <= j < k - from ==> !occurs_at(t, j, pat@),
        decreases to - k,
    {
        if occurs_at_exec(s, from, to, k, pat) {
            let r = k - from;
            proof {
                assert(occurs_at(t, r as int, pat@));
                assert(contains_seq(t, pat@));
                let c = choose|c: int|
                    occurs_at(t, c, pat@) && forall|j: int| 0 <= j < c ==> !occurs_at(t, j, pat@);
                assert(occurs_at(t, c, pat@) && forall|j: int|
                    0 <= j < c ==> !occurs_at(t, j, pat@)) by {
                    assert(occurs_at(t, r as int, pat@) && forall|j: int|
                        0 <= j < r as int ==> !occurs_at(t, j, pat@));
                }
                assert(c == r as int) by {
                    if c < r as int {
                    } else if c > r as int {
                        assert(!occurs_at(t, r as int, pat@));
                    }
                }
            }
            return Some(r);
        }
        if k == to {
            proof {
                assert(!contains_seq(t, pat@)) by {
                    if contains_seq(t, pat@) {
                        let c = choose|c: int| occurs_at(t, c, pat@);
                        assert(c <= t.len());
                        assert(!occurs_at(t, c, pat@));
                    }
                }
            }
            return None;
        }
        k += 1;
    }
}

/// Whether `pat` occurs in `s`.
pub fn contains_chars(s: &[char], pat: &[char]) -> (r: bool)
    ensures
        r == contains_seq(s@, pat@),
{
    proof {
        assert(s@.subrange(0, s@.len() as int) =~= s@);
    }
    let r = find_in(s, 0, s.len(), pat);
    match r {
        Some(_) => true,
        None => false,
    }
}

/// `s.replace(pat, to)`: every non-overlapping occurrence of `pat`, from the
/// left, replaced by `to`.
pub open spec fn replace_all(s: Seq<char>, pat: Seq<char>, to: Seq<char>) -> Seq<char>
    decreases s.len(),
{
    if pat.len() == 0 || s.len() < pat.len() {
        s
    } else if s.subrange(0, pat.len() as int) == pat {
        to + replace_all(s.subrange(pat.len() as int, s.len() as int), pat, to)
    } else {
        seq![s[0]] + replace_all(s.drop_first(), pat, to)
    }
}

/// `s[from..].replace(pat, to)`.
pub fn replace_from(s: &[char], from: usize, pat: &[char], to: &str) -> (r: String)
    requires
        from <= s@.len(),
        pat@.len() > 0,
    ensures
        r@ == replace_all(s@.subrange(from as int, s@.len() as int), pat@, to@),
    decreases s@.len() - from,
{
    let n = s.len();
    let ghost t = s@.subrange(from as int, n as int);
    if n - from < pat.len() {
        let r = string_of(s, from, n);
        return r;
    }
    if slice_range_eq(s, from, from + pat.len(), pat, 0, pat.len()) {
        assert(pat@.subrange(0, pat@.len() as int) =~= pat@);
        assert(t.subrange(0, pat@.len() as int) =~= s@.subrange(from as int, from + pat@.len()));
        let rest = replace_from(s, from + pat.len(), pat, to);
        assert(t.subrange(pat@.len() as int, t.len() as int) =~= s@.subrange(
            from + pat@.len(),
            n as int,
        ));
        let mut r = String::from_str(to);
        r.append(rest.as_str());
        r
    } else {
        assert(pat@.subrange(0, pat@.len() as int) =~= pat@);
        assert(t.subrange(0, pat@.len() as int) =~= s@.subrange(from as int, from + pat@.len()));
        let rest = replace_from(s, from + 1, pat, to);
        assert(t.drop_first() =~= s@.subrange(from + 1, n as int));
        let mut r = String::new();
        push_char(&mut r, s[from]);
        r.append(rest.as_str());
        assert(r@ =~= seq![t[0]] + replace_all(t.drop_first(), pat@, to@));
        r
    }
}

/// `str::trim_start_matches(c)`.
pub open spec fn trim_start_char(s: Seq<char>, c: char) -> Seq<char>
    decreases s.len(),
{
    if s.len() > 0 && s[0] == c {
        trim_start_char(s.drop_first(), c)
    } else {
        s
    }
}

/// The start of `trim_start_char(s[from..to], c)` inside `s`.
pub fn trim_start_char_bound(s: &[char], from: usize, to: usize, c: char) -> (r: usize)
    requires
        from <= to <= s@.len(),
    ensures
        from <= r <= to,
        s@.subrange(r as int, to as int) == trim_start_char(s@.subrange(from as int, to as int), c),
{
    let mut i = from;
    while i < to && s[i] == c
        invariant
            from <= i <= to,
            to <= s@.len(),
            trim_start_char(s@.subrange(from as int, to as int), c) == trim_start_char(
                s@.subrange(i as int, to as int),
                c,
            ),
        decreases to - i,
    {
        assert(s@.subrange(i as int, to as int).drop_first() =~= s@.subrange(i + 1, to as int));
        i += 1;
    }
    i
}

/// ASCII lower-casing of one character (`char::to_ascii_lowercase`).
pub open spec fn ascii_lower(c: char) -> char {
    if 'A' <= c && c <= 'Z' {
        ((c as u32) + 32) as char
    } else {
        c
    }
}

/// `str::eq_ignore_ascii_case`.
pub open spec fn eq_ignore_ascii_case(a: Seq<char>, b: Seq<char>) -> bool {
    a.len() == b.len() && forall|i: int| 0 <= i < a.len() ==> ascii_lower(a[i]) == ascii_lower(b[i])
}

pub fn char_ascii_lower(c: char) -> (r: char)
    ensures
        r == ascii_lower(c),
{
    if 'A' <= c && c <= 'Z' {
        ((c as u32) + 32) as u8 as char
    } else {
        c
    }
}

/// `a.eq_ignore_ascii_case(b)`.
pub fn eq_ignore_ascii_case_exec(a: &[char], b: &[char]) -> (r: bool)
    ensures
        r == eq_ignore_ascii_case(a@, b@),
{
    if a.len() != b.len() {
        return false;
    }
    let mut i: usize = 0;
    while i < a.len()
        invariant
            a@.len() == b@.len(),
            i <= a@.len(),
            forall|j: int| 0 <= j < i ==> ascii_lower(a@[j]) == ascii_lower(b@[j]),
        decreases a@.len() - i,
    {
        if char_ascii_lower(a[i]) != char_ascii_lower(b[i]) {
            return false;
        }
        i += 1;
    }
    true
}

/// `parts.join(sep)`.
pub fn join_strings(parts: &Vec<String>, sep: &str) -> (r: String)
    ensures
        r@ == join_with(parts.deep_view(), sep@),
{
    let mut r = String::new();
    let mut i: usize = 0;
    while i < parts.len()
        invariant
            i <= parts@.len(),
            r@ == join_with(parts.deep_view().take(i as int), sep@),
        decreases parts@.len() - i,
    {
        let ghost before = r@;
        if i > 0 {
            r.append(sep);
        }
        r.append(parts[i].as_str());
        proof {
            let t = parts.deep_view().take(i + 1);
            assert(t.drop_last() =~= parts.deep_view().take(i as int));
            assert(t.last() == parts@[i as int]@);
            if i == 0 {
                assert(r@ =~= t[0]);
            } else {
                assert(r@ =~= before + sep@ + t.last());
            }
        }
        i += 1;
    }
    assert(parts.deep_view().take(parts@.len() as int) =~= parts.deep_view());
    r
}

} // verus!
