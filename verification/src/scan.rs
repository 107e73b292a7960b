//! Scanning of command and `/proc` output text: Unicode trimming, lines,
//! whitespace-separated tokens and unsigned decimal numbers, each as the
//! corresponding `str` method defines it.

use vstd::prelude::*;
use crate::text::{contains, contains_text};

verus! {

/// The characters with the Unicode `White_Space` property, the ones
/// `char::is_whitespace` accepts.
pub open spec fn is_ws(c: char) -> bool {
    let x = c as u32;
    ||| 0x9 <= x <= 0xD
    ||| x == 0x20
    ||| x == 0x85
    ||| x == 0xA0
    ||| x == 0x1680
    ||| 0x2000 <= x <= 0x200A
    ||| x == 0x2028
    ||| x == 0x2029
    ||| x == 0x202F
    ||| x == 0x205F
    ||| x == 0x3000
}

/// Whether `c` is Unicode white space.
pub fn is_whitespace(c: char) -> (r: bool)
    ensures
        r == is_ws(c),
{
    let x = c as u32;
    (0x9 <= x && x <= 0xD) || x == 0x20 || x == 0x85 || x == 0xA0 || x == 0x1680 || (0x2000 <= x
        && x <= 0x200A) || x == 0x2028 || x == 0x2029 || x == 0x202F || x == 0x205F || x == 0x3000
}

/// `s` without its leading white space.
pub open spec fn trim_start(s: Seq<char>) -> Seq<char>
    decreases s.len(),
{
    if s.len() > 0 && is_ws(s[0]) {
        trim_start(s.drop_first())
    } else {
        s
    }
}

/// `s` without its trailing white space.
pub open spec fn trim_end(s: Seq<char>) -> Seq<char>
    decreases s.len(),
{
    if s.len() > 0 && is_ws(s.last()) {
        trim_end(s.drop_last())
    } else {
        s
    }
}

/// `s` without leading and trailing white space (`str::trim`).
pub open spec fn trimmed(s: Seq<char>) -> Seq<char> {
    trim_end(trim_start(s))
}

/// Skipping a run of leading white space that ends at `a` leaves `s[a..]`.
proof fn lemma_trim_start_at(s: Seq<char>, a: int)
    requires
        0 <= a <= s.len(),
        forall|k: int| 0 <= k < a ==> is_ws(#[trigger] s[k]),
        a == s.len() || !is_ws(s[a]),
    ensures
        trim_start(s) == s.subrange(a, s.len() as int),
    decreases a,
{
    if a == 0 {
        assert(s.subrange(0, s.len() as int) =~= s);
    } else {
        let t = s.drop_first();
        assert forall|k: int| 0 <= k < a - 1 implies is_ws(#[trigger] t[k]) by {
            assert(t[k] == s[k + 1]);
        }
        if a - 1 < t.len() {
            assert(t[a - 1] == s[a]);
        }
        lemma_trim_start_at(t, a - 1);
        assert(t.subrange(a - 1, t.len() as int) =~= s.subrange(a, s.len() as int));
    }
}

/// Dropping a run of trailing white space that starts at `b` leaves `s[..b]`.
proof fn lemma_trim_end_at(s: Seq<char>, b: int)
    requires
        0 <= b <= s.len(),
        forall|k: int| b <= k < s.len() ==> is_ws(#[trigger] s[k]),
        b == 0 || !is_ws(s[b - 1]),
    ensures
        trim_end(s) == s.subrange(0, b),
    decreases s.len() - b,
{
    if b == s.len() {
        assert(s.subrange(0, b) =~= s);
    } else {
        let t = s.drop_last();
        assert forall|k: int| b <= k < t.len() implies is_ws(#[trigger] t[k]) by {
            assert(t[k] == s[k]);
        }
        if b > 0 {
            assert(t[b - 1] == s[b - 1]);
        }
        lemma_trim_end_at(t, b);
        assert(t.subrange(0, b) =~= s.subrange(0, b));
    }
}

/// The bounds of `s[from..to]` with white space trimmed from both ends.
pub fn trim_range(s: &str, from: usize, to: usize) -> (r: (usize, usize))
    requires
        from <= to <= s@.len(),
    ensures
        from <= r.0 <= r.1 <= to,
        s@.subrange(r.0 as int, r.1 as int) == trimmed(s@.subrange(from as int, to as int)),
{
    let ghost t = s@.subrange(from as int, to as int);
    let mut a = from;
    while a < to && is_whitespace(s.get_char(a))
        invariant
            from <= a <= to,
            to <= s@.len(),
            t == s@.subrange(from as int, to as int),
            forall|k: int| from <= k < a ==> is_ws(#[trigger] s@[k]),
        decreases to - a,
    {
        a = a + 1;
    }
    proof {
        assert forall|k: int| 0 <= k < a - from implies is_ws(#[trigger] t[k]) by {
            assert(t[k] == s@[from + k]);
        }
        if a < to {
            assert(t[a - from] == s@[a as int]);
        }
        lemma_trim_start_at(t, a - from);
    }
    let ghost u = t.subrange(a - from, t.len() as int);
    assert(u =~= s@.subrange(a as int, to as int));
    let mut b = to;
    while b > a && is_whitespace(s.get_char(b - 1))
        invariant
            a <= b <= to,
            to <= s@.len(),
            forall|k: int| b <= k < to ==> is_ws(#[trigger] s@[k]),
        decreases b - a,
    {
        b = b - 1;
    }
    proof {
        assert forall|k: int| b - a <= k < u.len() implies is_ws(#[trigger] u[k]) by {
            assert(u[k] == s@[a + k]);
        }
        if b > a {
            assert(u[b - a - 1] == s@[b - 1]);
        }
        lemma_trim_end_at(u, b - a);
        assert(u.subrange(0, b - a) =~= s@.subrange(a as int, b as int));
    }
    (a, b)
}

/// `s` with white space trimmed from both ends.
pub fn trim(s: &str) -> (t: String)
    ensures
        t@ == trimmed(s@),
{
    let n = s.unicode_len();
    let (a, b) = trim_range(s, 0, n);
    assert(s@.subrange(0, n as int) =~= s@);
    s.substring_char(a, b).to_owned()
}

/// Position of the first `ch` at or after `i` in `s`, or `s.len()` when
/// there is none.
pub open spec fn next_of(s: Seq<char>, ch: char, i: int) -> int
    decreases s.len() - i,
{
    if i >= s.len() {
        s.len() as int
    } else if i >= 0 && s[i] == ch {
        i
    } else {
        next_of(s, ch, i + 1)
    }
}

/// `next_of` finds the first `ch` from `i` on.
pub proof fn lemma_next_of(s: Seq<char>, ch: char, i: int)
    requires
        0 <= i <= s.len(),
    ensures
        i <= next_of(s, ch, i) <= s.len(),
        next_of(s, ch, i) < s.len() ==> s[next_of(s, ch, i)] == ch,
        forall|k: int| i <= k < next_of(s, ch, i) ==> s[k] != ch,
    decreases s.len() - i,
{
    if i < s.len() && s[i] != ch {
        lemma_next_of(s, ch, i + 1);
    }
}

/// A line's content without a carriage return that ended it.
pub open spec fn strip_cr(l: Seq<char>) -> Seq<char> {
    if l.len() > 0 && l.last() == '\r' {
        l.drop_last()
    } else {
        l
    }
}

/// The lines of `s` from position `i` on (`str::lines`): split after each
/// `\n`, each line without its `\n` and a `\r` just before it; the last line
/// keeps everything when no `\n` ends it, and a final `\n` opens no new line.
pub open spec fn lines_from(s: Seq<char>, i: int) -> Seq<Seq<char>>
    decreases s.len() - i,
{
    if 0 <= i < s.len() {
        let j = next_of(s, '\n', i);
        proof {
            lemma_next_of(s, '\n', i);
        }
        if j < s.len() {
            seq![strip_cr(s.subrange(i, j))] + lines_from(s, j + 1)
        } else {
            seq![s.subrange(i, s.len() as int)]
        }
    } else {
        Seq::empty()
    }
}

/// The lines of `s`.
pub open spec fn lines(s: Seq<char>) -> Seq<Seq<char>> {
    lines_from(s, 0)
}

/// The line that starts at `i`: it is `s[i..r.0]`, and the next line starts
/// at `r.1`.
pub fn line_at(s: &str, n: usize, i: usize) -> (r: (usize, usize))
    requires
        n == s@.len(),
        i < n,
    ensures
        i <= r.0 <= r.1 <= n,
        i < r.1,
        lines_from(s@, i as int) == seq![s@.subrange(i as int, r.0 as int)] + lines_from(
            s@,
            r.1 as int,
        ),
{
    let mut j = i;
    while j < n && s.get_char(j) != '\n'
        invariant
            i <= j <= n,
            n == s@.len(),
            forall|k: int| i <= k < j ==> s@[k] != '\n',
        decreases n - j,
    {
        j = j + 1;
    }
    proof {
        lemma_next_of(s@, '\n', i as int);
        let q = next_of(s@, '\n', i as int);
        if q < j {
            assert(s@[q] == '\n');
        }
        if j < q {
            assert(s@[j as int] == '\n');
        }
    }
    if j < n {
        if j > i && s.get_char(j - 1) == '\r' {
            assert(strip_cr(s@.subrange(i as int, j as int)) =~= s@.subrange(i as int, j - 1));
            (j - 1, j + 1)
        } else {
            assert(strip_cr(s@.subrange(i as int, j as int)) =~= s@.subrange(i as int, j as int));
            (j, j + 1)
        }
    } else {
        assert(lines_from(s@, n as int) =~= Seq::<Seq<char>>::empty());
        assert(seq![s@.subrange(i as int, n as int)] + Seq::<Seq<char>>::empty() =~= seq![
            s@.subrange(i as int, n as int),
        ]);
        (n, n)
    }
}

/// Position of the first white-space character at or after `i`, or
/// `s.len()` when there is none.
pub open spec fn next_ws(s: Seq<char>, i: int) -> int
    decreases s.len() - i,
{
    if i >= s.len() {
        s.len() as int
    } else if i >= 0 && is_ws(s[i]) {
        i
    } else {
        next_ws(s, i + 1)
    }
}

/// `next_ws` finds the first white space from `i` on.
pub proof fn lemma_next_ws(s: Seq<char>, i: int)
    requires
        0 <= i <= s.len(),
    ensures
        i <= next_ws(s, i) <= s.len(),
        next_ws(s, i) < s.len() ==> is_ws(s[next_ws(s, i)]),
        forall|k: int| i <= k < next_ws(s, i) ==> !is_ws(#[trigger] s[k]),
    decreases s.len() - i,
{
    if i < s.len() && !is_ws(s[i]) {
        lemma_next_ws(s, i + 1);
    }
}

/// The white-space separated tokens of `s` from position `i` on
/// (`str::split_whitespace`).
pub open spec fn tokens_from(s: Seq<char>, i: int) -> Seq<Seq<char>>
    decreases s.len() - i,
{
    if 0 <= i < s.len() {
        if is_ws(s[i]) {
            tokens_from(s, i + 1)
        } else {
            let j = next_ws(s, i);
            proof {
                lemma_next_ws(s, i);
                if j == i {
                    assert(is_ws(s[j]));
                }
            }
            seq![s.subrange(i, j)] + tokens_from(s, j)
        }
    } else {
        Seq::empty()
    }
}

/// The white-space separated tokens of `s`.
pub open spec fn tokens(s: Seq<char>) -> Seq<Seq<char>> {
    tokens_from(s, 0)
}

/// White space before position `a` contributes no token.
proof fn lemma_tokens_skip(s: Seq<char>, i: int, a: int)
    requires
        0 <= i <= a <= s.len(),
        forall|k: int| i <= k < a ==> is_ws(#[trigger] s[k]),
    ensures
        tokens_from(s, i) == tokens_from(s, a),
    decreases a - i,
{
    if i < a {
        assert(is_ws(s[i]));
        lemma_tokens_skip(s, i + 1, a);
    }
}

/// The next token at or after `i`: it is `s[r.0..r.1]` unless `r.0 == n`,
/// in which case no token is left.
pub fn token_at(s: &str, n: usize, i: usize) -> (r: (usize, usize))
    requires
        n == s@.len(),
        i <= n,
    ensures
        i <= r.0 <= r.1 <= n,
        r.0 < n ==> r.0 < r.1 && tokens_from(s@, i as int) == seq![s@.subrange(r.0 as int, r.1 as int)]
            + tokens_from(s@, r.1 as int),
        r.0 == n ==> tokens_from(s@, i as int) == Seq::<Seq<char>>::empty(),
{
    let mut a = i;
    while a < n && is_whitespace(s.get_char(a))
        invariant
            i <= a <= n,
            n == s@.len(),
            forall|k: int| i <= k < a ==> is_ws(#[trigger] s@[k]),
        decreases n - a,
    {
        a = a + 1;
    }
    proof {
        lemma_tokens_skip(s@, i as int, a as int);
    }
    if a == n {
        return (n, n);
    }
    let mut b = a + 1;
    while b < n && !is_whitespace(s.get_char(b))
        invariant
            a < b <= n,
            n == s@.len(),
            !is_ws(s@[a as int]),
            forall|k: int| a <= k < b ==> !is_ws(#[trigger] s@[k]),
        decreases n - b,
    {
        b = b + 1;
    }
    proof {
        lemma_next_ws(s@, a as int);
        let q = next_ws(s@, a as int);
        if q < b {
            assert(is_ws(s@[q]));
        }
        if b < q {
            assert(!is_ws(s@[b as int]));
        }
    }
    (a, b)
}

/// Token `k` of `s`, if `s` has that many.
pub fn nth_token<'a>(s: &'a str, k: usize) -> (r: Option<&'a str>)
    ensures
        match r {
            Some(t) => k < tokens(s@).len() && t@ == tokens(s@)[k as int],
            None => k >= tokens(s@).len(),
        },
{
    let n = s.unicode_len();
    let mut i: usize = 0;
    let mut c: usize = 0;
    let ghost mut seen: Seq<Seq<char>> = Seq::empty();
    while c < k
        invariant
            n == s@.len(),
            i <= n,
            c <= k,
            seen.len() == c,
            tokens(s@) == seen + tokens_from(s@, i as int),
        decreases k - c,
    {
        let (a, b) = token_at(s, n, i);
        if a == n {
            assert(tokens(s@) =~= seen);
            return None;
        }
        proof {
            seen = seen.push(s@.subrange(a as int, b as int));
            assert(tokens(s@) =~= seen + tokens_from(s@, b as int));
        }
        i = b;
        c = c + 1;
    }
    let (a, b) = token_at(s, n, i);
    if a == n {
        assert(tokens(s@) =~= seen);
        None
    } else {
        assert(tokens(s@)[k as int] == s@.subrange(a as int, b as int));
        Some(s.substring_char(a, b))
    }
}

/// An ASCII decimal digit.
pub open spec fn is_digit(c: char) -> bool {
    '0' <= c <= '9'
}

/// The value of a string of decimal digits.
pub open spec fn digits_value(d: Seq<char>) -> nat
    decreases d.len(),
{
    if d.len() == 0 {
        0
    } else {
        digits_value(d.drop_last()) * 10 + ((d.last() as int) - 48) as nat
    }
}

/// The digits of an unsigned number: the text after an optional `+`.
pub open spec fn unsigned_digits(s: Seq<char>) -> Seq<char> {
    if s.len() > 0 && s[0] == '+' {
        s.drop_first()
    } else {
        s
    }
}

/// `s` is an optional `+` followed by at least one decimal digit.
pub open spec fn decimal_form(s: Seq<char>) -> bool {
    let d = unsigned_digits(s);
    d.len() > 0 && forall|k: int| 0 <= k < d.len() ==> is_digit(#[trigger] d[k])
}

/// `s` parsed as a `u64` (`str::parse::<u64>`): `None` unless it is in
/// decimal form and its value fits.
pub open spec fn spec_parse_u64(s: Seq<char>) -> Option<u64> {
    if decimal_form(s) && digits_value(unsigned_digits(s)) <= u64::MAX {
        Some(digits_value(unsigned_digits(s)) as u64)
    } else {
        None
    }
}

/// `s` parsed as a `usize` (`str::parse::<usize>`).
pub open spec fn spec_parse_usize(s: Seq<char>) -> Option<usize> {
    if decimal_form(s) && digits_value(unsigned_digits(s)) <= usize::MAX {
        Some(digits_value(unsigned_digits(s)) as usize)
    } else {
        None
    }
}

/// More digits never make a smaller value.
proof fn lemma_digits_value_prefix(d: Seq<char>, k: int)
    requires
        0 <= k <= d.len(),
        forall|j: int| 0 <= j < d.len() ==> is_digit(#[trigger] d[j]),
    ensures
        digits_value(d.subrange(0, k)) <= digits_value(d),
    decreases d.len() - k,
{
    if k < d.len() {
        let p = d.subrange(0, k + 1);
        assert(p.drop_last() =~= d.subrange(0, k));
        assert(is_digit(p.last()));
        lemma_digits_value_prefix(d, k + 1);
    } else {
        assert(d.subrange(0, k) =~= d);
    }
}

/// Parses `s` as an unsigned decimal `u64`.
pub fn parse_u64(s: &str) -> (r: Option<u64>)
    ensures
        r == spec_parse_u64(s@),
{
    let n = s.unicode_len();
    let start: usize = if n > 0 && s.get_char(0) == '+' { 1 } else { 0 };
    let ghost d = unsigned_digits(s@);
    assert(d =~= s@.subrange(start as int, n as int));
    if start >= n {
        return None;
    }
    let mut v: u64 = 0;
    let mut i = start;
    while i < n
        invariant
            start <= i <= n,
            n == s@.len(),
            d == s@.subrange(start as int, n as int),
            d == unsigned_digits(s@),
            forall|k: int| 0 <= k < i - start ==> is_digit(#[trigger] d[k]),
            v == digits_value(d.subrange(0, i - start)),
        decreases n - i,
    {
        let c = s.get_char(i);
        if !('0' <= c && c <= '9') {
            assert(d[i - start] == c);
            assert(!is_digit(d[i - start]));
            return None;
        }
        let dig = (c as u32 - 48) as u64;
        let ghost p = d.subrange(0, i - start + 1);
        assert(p.drop_last() =~= d.subrange(0, i - start));
        assert(p.last() == c);
        if v > (u64::MAX - dig) / 10 {
            proof {
                assert(v * 10 + dig > u64::MAX) by (nonlinear_arith)
                    requires
                        v > (u64::MAX - dig) / 10,
                        dig <= 9,
                ;
                if decimal_form(s@) {
                    lemma_digits_value_prefix(d, i - start + 1);
                }
            }
            return None;
        }
        assert(v * 10 + dig <= u64::MAX) by (nonlinear_arith)
            requires
                v <= (u64::MAX - dig) / 10,
                dig <= 9,
        ;
        v = v * 10 + dig;
        i = i + 1;
    }
    assert(d.subrange(0, n - start) =~= d);
    Some(v)
}

/// Parses `s` as an unsigned decimal `usize`.
pub fn parse_usize(s: &str) -> (r: Option<usize>)
    ensures
        r == spec_parse_usize(s@),
{
    match parse_u64(s) {
        Some(v) => {
            if v <= usize::MAX as u64 {
                Some(v as usize)
            } else {
                None
            }
        },
        None => None,
    }
}

/// `l` begins with `p`.
pub open spec fn has_prefix(l: Seq<char>, p: Seq<char>) -> bool {
    p.len() <= l.len() && l.subrange(0, p.len() as int) == p
}

/// `l` after its first `p.len()` characters.
pub open spec fn after_prefix(l: Seq<char>, p: Seq<char>) -> Seq<char> {
    l.subrange(p.len() as int, l.len() as int)
}

/// Whether `l` begins with `p` (`str::starts_with`).
pub fn starts_with(l: &str, p: &str) -> (r: bool)
    ensures
        r == has_prefix(l@, p@),
{
    let ln = l.unicode_len();
    let pn = p.unicode_len();
    if pn > ln {
        return false;
    }
    let mut j: usize = 0;
    while j < pn
        invariant
            ln == l@.len(),
            pn == p@.len(),
            pn <= ln,
            j <= pn,
            forall|t: int| 0 <= t < j ==> l@[t] == p@[t],
        decreases pn - j,
    {
        if l.get_char(j) != p.get_char(j) {
            assert(l@.subrange(0, pn as int)[j as int] != p@[j as int]);
            return false;
        }
        j = j + 1;
    }
    assert(l@.subrange(0, pn as int) =~= p@);
    true
}

/// `l` after the prefix `p`, which it begins with.
pub fn rest_after<'a>(l: &'a str, p: &str) -> (r: &'a str)
    requires
        has_prefix(l@, p@),
    ensures
        r@ == after_prefix(l@, p@),
{
    let ln = l.unicode_len();
    let pn = p.unicode_len();
    l.substring_char(pn, ln)
}

/// The first of `ls` that begins with `p`.
pub open spec fn first_with_prefix(ls: Seq<Seq<char>>, p: Seq<char>) -> Option<Seq<char>>
    decreases ls.len(),
{
    if ls.len() == 0 {
        None
    } else if has_prefix(ls[0], p) {
        Some(ls[0])
    } else {
        first_with_prefix(ls.drop_first(), p)
    }
}

/// The first of `ls` in which `needle` occurs.
pub open spec fn first_containing(ls: Seq<Seq<char>>, needle: Seq<char>) -> Option<Seq<char>>
    decreases ls.len(),
{
    if ls.len() == 0 {
        None
    } else if contains_text(ls[0], needle) {
        Some(ls[0])
    } else {
        first_containing(ls.drop_first(), needle)
    }
}

/// The first line of `s` that begins with `p`.
pub fn line_with_prefix<'a>(s: &'a str, p: &str) -> (r: Option<&'a str>)
    ensures
        match r {
            Some(l) => first_with_prefix(lines(s@), p@) == Some(l@) && has_prefix(l@, p@),
            None => first_with_prefix(lines(s@), p@) is None,
        },
{
    let n = s.unicode_len();
    let mut i: usize = 0;
    while i < n
        invariant
            n == s@.len(),
            i <= n,
            first_with_prefix(lines(s@), p@) == first_with_prefix(lines_from(s@, i as int), p@),
        decreases n - i,
    {
        let (e, next) = line_at(s, n, i);
        let l = s.substring_char(i, e);
        let ghost ls = lines_from(s@, i as int);
        assert(ls[0] == l@);
        assert(ls.drop_first() =~= lines_from(s@, next as int));
        if starts_with(l, p) {
            return Some(l);
        }
        i = next;
    }
    assert(lines_from(s@, i as int) =~= Seq::<Seq<char>>::empty());
    None
}

/// The first line of `s` in which `needle` occurs.
pub fn line_containing<'a>(s: &'a str, needle: &str) -> (r: Option<&'a str>)
    ensures
        match r {
            Some(l) => first_containing(lines(s@), needle@) == Some(l@),
            None => first_containing(lines(s@), needle@) is None,
        },
{
    let n = s.unicode_len();
    let mut i: usize = 0;
    while i < n
        invariant
            n == s@.len(),
            i <= n,
            first_containing(lines(s@), needle@) == first_containing(lines_from(s@, i as int), needle@),
        decreases n - i,
    {
        let (e, next) = line_at(s, n, i);
        let l = s.substring_char(i, e);
        let ghost ls = lines_from(s@, i as int);
        assert(ls[0] == l@);
        assert(ls.drop_first() =~= lines_from(s@, next as int));
        if contains(l, needle) {
            return Some(l);
        }
        i = next;
    }
    assert(lines_from(s@, i as int) =~= Seq::<Seq<char>>::empty());
    None
}

/// The first line of `s`, or the empty text when `s` has no lines
/// (`s.lines().next().unwrap_or("")`).
pub fn first_line<'a>(s: &'a str) -> (r: &'a str)
    ensures
        lines(s@).len() > 0 ==> r@ == lines(s@)[0],
        lines(s@).len() == 0 ==> r@ == Seq::<char>::empty(),
{
    let n = s.unicode_len();
    if n == 0 {
        proof {
            reveal_strlit("");
        }
        return "";
    }
    let (e, next) = line_at(s, n, 0);
    s.substring_char(0, e)
}

/// The view of an optional text.
pub open spec fn text_opt(r: Option<String>) -> Option<Seq<char>> {
    match r {
        Some(t) => Some(t@),
        None => None,
    }
}

/// The first line of `s`, or the empty text.
pub open spec fn first_line_text(s: Seq<char>) -> Seq<char> {
    if lines(s).len() > 0 {
        lines(s)[0]
    } else {
        Seq::empty()
    }
}

/// Position of the first `ch` at or after `from` in `s`, or its length.
pub fn find_char(s: &str, ch: char, from: usize) -> (r: usize)
    requires
        from <= s@.len(),
    ensures
        r == next_of(s@, ch, from as int),
        from <= r <= s@.len(),
{
    let n = s.unicode_len();
    let mut j = from;
    while j < n && s.get_char(j) != ch
        invariant
            from <= j <= n,
            n == s@.len(),
            forall|k: int| from <= k < j ==> s@[k] != ch,
        decreases n - j,
    {
        j = j + 1;
    }
    proof {
        lemma_next_of(s@, ch, from as int);
        let q = next_of(s@, ch, from as int);
        if q < j {
            assert(s@[q] == ch);
        }
        if j < q {
            assert(s@[j as int] == ch);
        }
    }
    j
}

/// The trimmed text after `key` on the first line that begins with `key`
/// and has something after it besides white space.
pub open spec fn first_filled_value(ls: Seq<Seq<char>>, key: Seq<char>) -> Option<Seq<char>>
    decreases ls.len(),
{
    if ls.len() == 0 {
        None
    } else if has_prefix(ls[0], key) && trimmed(after_prefix(ls[0], key)).len() > 0 {
        Some(trimmed(after_prefix(ls[0], key)))
    } else {
        first_filled_value(ls.drop_first(), key)
    }
}

/// The value of a `key=value` line in `wmic ... /value` output: the first
/// non-blank one.
pub fn keyed_value(s: &str, key: &str) -> (r: Option<String>)
    ensures
        text_opt(r) == first_filled_value(lines(s@), key@),
{
    let n = s.unicode_len();
    let mut i: usize = 0;
    while i < n
        invariant
            n == s@.len(),
            i <= n,
            first_filled_value(lines(s@), key@) == first_filled_value(lines_from(s@, i as int), key@),
        decreases n - i,
    {
        let (e, next) = line_at(s, n, i);
        let l = s.substring_char(i, e);
        let ghost ls = lines_from(s@, i as int);
        assert(ls[0] == l@);
        assert(ls.drop_first() =~= lines_from(s@, next as int));
        if starts_with(l, key) {
            let t = trim(rest_after(l, key));
            if t.as_str().unicode_len() > 0 {
                return Some(t);
            }
        }
        i = next;
    }
    assert(lines_from(s@, i as int) =~= Seq::<Seq<char>>::empty());
    None
}

/// The pieces of `s` from position `i` on between occurrences of `ch`
/// (`str::split`): one more piece than there are separators, empty pieces
/// included.
pub open spec fn pieces_from(s: Seq<char>, ch: char, i: int) -> Seq<Seq<char>>
    decreases s.len() - i,
{
    if 0 <= i <= s.len() {
        let j = next_of(s, ch, i);
        proof {
            lemma_next_of(s, ch, i);
        }
        if j < s.len() {
            seq![s.subrange(i, j)] + pieces_from(s, ch, j + 1)
        } else {
            seq![s.subrange(i, s.len() as int)]
        }
    } else {
        Seq::empty()
    }
}

/// The numbers among the trimmed pieces, in order, the others skipped.
pub open spec fn parsed_u64s(ps: Seq<Seq<char>>) -> Seq<u64>
    decreases ps.len(),
{
    if ps.len() == 0 {
        Seq::empty()
    } else {
        match spec_parse_u64(trimmed(ps.last())) {
            Some(v) => parsed_u64s(ps.drop_last()).push(v),
            None => parsed_u64s(ps.drop_last()),
        }
    }
}

/// The sizes among the trimmed pieces, in order, the others skipped.
pub open spec fn parsed_usizes(ps: Seq<Seq<char>>) -> Seq<usize>
    decreases ps.len(),
{
    if ps.len() == 0 {
        Seq::empty()
    } else {
        match spec_parse_usize(trimmed(ps.last())) {
            Some(v) => parsed_usizes(ps.drop_last()).push(v),
            None => parsed_usizes(ps.drop_last()),
        }
    }
}

/// The numbers of a comma-separated list such as `10, 30,60`; pieces that
/// are not numbers are skipped.
pub fn comma_u64s(s: &str) -> (v: Vec<u64>)
    ensures
        v@ == parsed_u64s(pieces_from(s@, ',', 0)),
{
    let n = s.unicode_len();
    let mut v: Vec<u64> = Vec::new();
    let mut i: usize = 0;
    let ghost mut done: Seq<Seq<char>> = Seq::empty();
    loop
        invariant
            n == s@.len(),
            i <= n,
            pieces_from(s@, ',', 0) == done + pieces_from(s@, ',', i as int),
            v@ == parsed_u64s(done),
        decreases n - i,
    {
        let j = find_char(s, ',', i);
        let (a, b) = trim_range(s, i, j);
        let parsed = parse_u64(s.substring_char(a, b));
        match parsed {
            Some(x) => v.push(x),
            None => {},
        }
        proof {
            let d2 = done.push(s@.subrange(i as int, j as int));
            assert(d2.drop_last() =~= done);
            if j < n {
                assert(pieces_from(s@, ',', 0) =~= d2 + pieces_from(s@, ',', j + 1));
            } else {
                assert(pieces_from(s@, ',', 0) =~= d2);
            }
            done = d2;
        }
        if j >= n {
            return v;
        }
        i = j + 1;
    }
}

/// The sizes of a comma-separated list; pieces that are not sizes are
/// skipped.
pub fn comma_usizes(s: &str) -> (v: Vec<usize>)
    ensures
        v@ == parsed_usizes(pieces_from(s@, ',', 0)),
{
    let n = s.unicode_len();
    let mut v: Vec<usize> = Vec::new();
    let mut i: usize = 0;
    let ghost mut done: Seq<Seq<char>> = Seq::empty();
    loop
        invariant
            n == s@.len(),
            i <= n,
            pieces_from(s@, ',', 0) == done + pieces_from(s@, ',', i as int),
            v@ == parsed_usizes(done),
        decreases n - i,
    {
        let j = find_char(s, ',', i);
        let (a, b) = trim_range(s, i, j);
        let parsed = parse_usize(s.substring_char(a, b));
        match parsed {
            Some(x) => v.push(x),
            None => {},
        }
        proof {
            let d2 = done.push(s@.subrange(i as int, j as int));
            assert(d2.drop_last() =~= done);
            if j < n {
                assert(pieces_from(s@, ',', 0) =~= d2 + pieces_from(s@, ',', j + 1));
            } else {
                assert(pieces_from(s@, ',', 0) =~= d2);
            }
            done = d2;
        }
        if j >= n {
            return v;
        }
        i = j + 1;
    }
}

/// Position of the last `ch` before `i`, or -1 when there is none.
pub open spec fn last_of(s: Seq<char>, ch: char, i: int) -> int
    decreases i,
{
    if i <= 0 {
        -1
    } else if s[i - 1] == ch {
        i - 1
    } else {
        last_of(s, ch, i - 1)
    }
}

/// `last_of` finds the last `ch` before `i`.
pub proof fn lemma_last_of(s: Seq<char>, ch: char, i: int)
    requires
        0 <= i <= s.len(),
    ensures
        -1 <= last_of(s, ch, i) < i,
        last_of(s, ch, i) >= 0 ==> s[last_of(s, ch, i)] == ch,
        forall|k: int| last_of(s, ch, i) < k < i ==> s[k] != ch,
    decreases i,
{
    if i > 0 && s[i - 1] != ch {
        lemma_last_of(s, ch, i - 1);
    }
}

/// Position of the last `ch` in `s` (`str::rfind` counted in characters).
pub fn rfind_char(s: &str, ch: char) -> (r: Option<usize>)
    ensures
        match r {
            Some(p) => p == last_of(s@, ch, s@.len() as int) && p < s@.len(),
            None => last_of(s@, ch, s@.len() as int) == -1,
        },
{
    let n = s.unicode_len();
    let mut i = n;
    while i > 0 && s.get_char(i - 1) != ch
        invariant
            i <= n,
            n == s@.len(),
            forall|k: int| i <= k < n ==> s@[k] != ch,
        decreases i,
    {
        i = i - 1;
    }
    proof {
        lemma_last_of(s@, ch, n as int);
        let q = last_of(s@, ch, n as int);
        if q + 1 < i {
            assert(s@[q] == ch);
        }
        if i < q + 1 {
            assert(s@[i - 1] == ch);
        }
    }
    if i == 0 {
        None
    } else {
        Some(i - 1)
    }
}

/// The views of a list of strings.
pub open spec fn texts(v: Seq<String>) -> Seq<Seq<char>> {
    v.map_values(|t: String| t@)
}

/// The pieces of `s` between occurrences of `ch` (`str::split`).
pub fn split_char(s: &str, ch: char) -> (v: Vec<String>)
    ensures
        texts(v@) == pieces_from(s@, ch, 0),
{
    let n = s.unicode_len();
    let mut v: Vec<String> = Vec::new();
    let mut i: usize = 0;
    loop
        invariant
            n == s@.len(),
            i <= n,
            pieces_from(s@, ch, 0) == texts(v@) + pieces_from(s@, ch, i as int),
        decreases n - i,
    {
        let j = find_char(s, ch, i);
        let ghost before = texts(v@);
        v.push(s.substring_char(i, j).to_owned());
        proof {
            assert(texts(v@) =~= before.push(s@.subrange(i as int, j as int)));
            if j < n {
                assert(pieces_from(s@, ch, 0) =~= texts(v@) + pieces_from(s@, ch, j + 1));
            } else {
                assert(pieces_from(s@, ch, 0) =~= texts(v@));
            }
        }
        if j >= n {
            return v;
        }
        i = j + 1;
    }
}

/// The lines of `s`, each as a string.
pub fn line_list(s: &str) -> (v: Vec<String>)
    ensures
        texts(v@) == lines(s@),
{
    let n = s.unicode_len();
    let mut v: Vec<String> = Vec::new();
    let mut i: usize = 0;
    while i < n
        invariant
            n == s@.len(),
            i <= n,
            lines(s@) == texts(v@) + lines_from(s@, i as int),
        decreases n - i,
    {
        let (e, next) = line_at(s, n, i);
        let ghost before = texts(v@);
        v.push(s.substring_char(i, e).to_owned());
        proof {
            assert(texts(v@) =~= before.push(s@.subrange(i as int, e as int)));
            assert(lines(s@) =~= texts(v@) + lines_from(s@, next as int));
        }
        i = next;
    }
    assert(lines_from(s@, i as int) =~= Seq::<Seq<char>>::empty());
    assert(lines(s@) =~= texts(v@));
    v
}

/// The view of an optional string slice.
pub open spec fn str_opt(r: Option<&str>) -> Option<Seq<char>> {
    match r {
        Some(t) => Some(t@),
        None => None,
    }
}

} // verus!
