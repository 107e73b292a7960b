//! String building blocks: hexadecimal and decimal rendering.

use vstd::prelude::*;

verus! {

/// Lower-case hexadecimal digit for `d < 16`.
pub open spec fn hex_digit(d: int) -> char {
    if d == 0 { '0' } else if d == 1 { '1' } else if d == 2 { '2' } else if d == 3 { '3' }
    else if d == 4 { '4' } else if d == 5 { '5' } else if d == 6 { '6' } else if d == 7 { '7' }
    else if d == 8 { '8' } else if d == 9 { '9' } else if d == 10 { 'a' } else if d == 11 { 'b' }
    else if d == 12 { 'c' } else if d == 13 { 'd' } else if d == 14 { 'e' } else { 'f' }
}

/// Decimal digit for `d < 10`.
pub open spec fn decimal_digit(d: int) -> char {
    hex_digit(d)
}

/// Appends the lower-case hex digit `d`.
pub fn push_hex_digit(out: &mut String, d: u8)
    requires
        d < 16,
    ensures
        final(out)@ == old(out)@.push(hex_digit(d as int)),
{
    let digits = "0123456789abcdef";
    proof {
        reveal_strlit("0123456789abcdef");
    }
    let one = digits.substring_char(d as usize, d as usize + 1);
    out.append(one);
    assert(one@ =~= seq![hex_digit(d as int)]);
}

/// Two lower-case hex digits per byte, high nibble first.
pub open spec fn hex_encode(b: Seq<u8>) -> Seq<char> {
    Seq::new(
        2 * b.len(),
        |j: int| if j % 2 == 0 { hex_digit((b[j / 2] / 16) as int) } else { hex_digit((b[j / 2] % 16) as int) },
    )
}

/// Lower-case hexadecimal rendering of `bytes`.
pub fn hex_lower(bytes: &[u8]) -> (s: String)
    ensures
        s@ == hex_encode(bytes@),
{
    let mut s = String::new();
    let mut k: usize = 0;
    while k < bytes.len()
        invariant
            k <= bytes@.len(),
            s@ =~= hex_encode(bytes@.subrange(0, k as int)),
        decreases bytes@.len() - k,
    {
        let b = bytes[k];
        push_hex_digit(&mut s, b / 16);
        push_hex_digit(&mut s, b % 16);
        proof {
            let p = bytes@.subrange(0, k as int);
            let q = bytes@.subrange(0, k + 1);
            assert forall|j: int| 0 <= j < 2 * q.len() implies #[trigger] hex_encode(q)[j] == s@[j] by {
                if j < 2 * k {
                    assert(q[j / 2] == p[j / 2]);
                } else {
                    assert(j / 2 == k);
                }
            }
        }
        k = k + 1;
    }
    assert(bytes@.subrange(0, bytes@.len() as int) =~= bytes@);
    s
}

/// Decimal rendering of `n` without leading zeros.
pub open spec fn decimal(n: nat) -> Seq<char>
    decreases n,
{
    if n < 10 {
        seq![decimal_digit(n as int)]
    } else {
        decimal(n / 10).push(decimal_digit((n % 10) as int))
    }
}

/// Appends the decimal rendering of `n`.
pub fn push_decimal(out: &mut String, n: u64)
    ensures
        final(out)@ == old(out)@ + decimal(n as nat),
    decreases n,
{
    if n < 10 {
        push_hex_digit(out, n as u8);
        assert(old(out)@.push(hex_digit(n as int)) =~= old(out)@ + decimal(n as nat));
    } else {
        push_decimal(out, n / 10);
        let ghost mid = out@;
        push_hex_digit(out, (n % 10) as u8);
        assert(out@ =~= old(out)@ + decimal(n as nat));
    }
}

/// ASCII lower-casing of one character; other characters are unchanged.
pub open spec fn ascii_lower(c: char) -> char {
    if 'A' <= c && c <= 'Z' {
        ((c as u32) + 32) as char
    } else {
        c
    }
}

/// The two texts are equal up to ASCII case.
pub open spec fn eq_ascii_case(a: Seq<char>, b: Seq<char>) -> bool {
    a.len() == b.len() && forall|i: int| 0 <= i < a.len() ==> ascii_lower(#[trigger] a[i]) == ascii_lower(b[i])
}

/// Executable `ascii_lower` on the code point.
fn lower_code(c: char) -> (r: u32)
    ensures
        r == ascii_lower(c) as u32,
{
    let x = c as u32;
    if 65 <= x && x <= 90 {
        x + 32
    } else {
        x
    }
}

/// Equality up to ASCII case, character by character.
pub fn eq_ignore_ascii_case(a: &str, b: &str) -> (r: bool)
    ensures
        r == eq_ascii_case(a@, b@),
{
    let la = a.unicode_len();
    let lb = b.unicode_len();
    if la != lb {
        return false;
    }
    let mut i: usize = 0;
    while i < la
        invariant
            la == a@.len(),
            lb == b@.len(),
            la == lb,
            i <= la,
            forall|j: int| 0 <= j < i ==> ascii_lower(#[trigger] a@[j]) == ascii_lower(b@[j]),
        decreases la - i,
    {
        let ca = a.get_char(i);
        let cb = b.get_char(i);
        if lower_code(ca) != lower_code(cb) {
            return false;
        }
        i = i + 1;
    }
    true
}

/// The text with every ASCII capital lower-cased.
pub open spec fn lower_text(s: Seq<char>) -> Seq<char> {
    Seq::new(s.len(), |i: int| ascii_lower(s[i]))
}

/// `needle` occurs in `hay` starting at position `i`.
pub open spec fn occurs_at(hay: Seq<char>, needle: Seq<char>, i: int) -> bool {
    0 <= i && i + needle.len() <= hay.len() && hay.subrange(i, i + needle.len()) == needle
}

/// `needle` occurs somewhere in `hay` (the empty text occurs everywhere).
pub open spec fn contains_text(hay: Seq<char>, needle: Seq<char>) -> bool {
    exists|i: int| occurs_at(hay, needle, i)
}

/// ASCII upper-casing of one character; other characters are unchanged.
pub open spec fn ascii_upper(c: char) -> char {
    if 'a' <= c && c <= 'z' {
        ((c as u32) - 32) as char
    } else {
        c
    }
}

/// The text with every ASCII small letter upper-cased.
pub open spec fn upper_text(s: Seq<char>) -> Seq<char> {
    Seq::new(s.len(), |i: int| ascii_upper(s[i]))
}

/// Executable `ascii_upper` on the code point.
fn upper_code(c: char) -> (r: u32)
    ensures
        r == ascii_upper(c) as u32,
{
    let x = c as u32;
    if 97 <= x && x <= 122 {
        x - 32
    } else {
        x
    }
}

/// How a text is case-folded before a search.
#[derive(Clone, Copy, PartialEq, Eq, Structural)]
enum Fold {
    Keep,
    Lower,
    Upper,
}

/// `hay` under a case folding.
spec fn folded(hay: Seq<char>, fold: Fold) -> Seq<char> {
    match fold {
        Fold::Keep => hay,
        Fold::Lower => lower_text(hay),
        Fold::Upper => upper_text(hay),
    }
}

/// Whether `needle` occurs in `hay` once `hay` is case-folded.
fn find_text(hay: &str, needle: &str, fold: Fold) -> (r: bool)
    ensures
        r == contains_text(folded(hay@, fold), needle@),
{
    let ghost low = folded(hay@, fold);
    let hl = hay.unicode_len();
    let nl = needle.unicode_len();
    if nl > hl {
        proof {
            assert forall|i: int| !occurs_at(low, needle@, i) by {}
        }
        return false;
    }
    let mut i: usize = 0;
    while i <= hl - nl
        invariant
            hl == hay@.len(),
            nl == needle@.len(),
            nl <= hl,
            i <= hl - nl + 1,
            low == folded(hay@, fold),
            low.len() == hl,
            forall|k: int| 0 <= k < i ==> !occurs_at(low, needle@, k),
        decreases hl - nl + 1 - i,
    {
        let mut j: usize = 0;
        let mut same = true;
        while j < nl && same
            invariant
                hl == hay@.len(),
                nl == needle@.len(),
                i + nl <= hl,
                j <= nl,
                low == folded(hay@, fold),
                low.len() == hl,
                same ==> forall|t: int| 0 <= t < j ==> low[i + t] == needle@[t],
                !same ==> j >= 1 && low[i + j - 1] != needle@[j - 1],
            decreases nl - j,
        {
            let h = hay.get_char(i + j);
            let c = match fold {
                Fold::Keep => h as u32,
                Fold::Lower => lower_code(h),
                Fold::Upper => upper_code(h),
            };
            let d = needle.get_char(j);
            if c != d as u32 {
                same = false;
            }
            j = j + 1;
        }
        if same {
            proof {
                assert(low.subrange(i as int, i + nl) =~= needle@);
                assert(occurs_at(low, needle@, i as int));
            }
            return true;
        }
        proof {
            assert(!occurs_at(low, needle@, i as int)) by {
                if occurs_at(low, needle@, i as int) {
                    assert(low.subrange(i as int, i + nl)[j - 1] == low[i + j - 1]);
                }
            }
        }
        i = i + 1;
    }
    proof {
        assert forall|k: int| !occurs_at(low, needle@, k) by {
            if 0 <= k && k < i {
            }
        }
    }
    false
}

/// Whether `needle` occurs in `hay` once `hay` is ASCII lower-cased.
pub fn contains_lowered(hay: &str, needle: &str) -> (r: bool)
    ensures
        r == contains_text(lower_text(hay@), needle@),
{
    find_text(hay, needle, Fold::Lower)
}

/// Whether `needle` occurs in `hay` once `hay` is ASCII upper-cased.
pub fn contains_uppered(hay: &str, needle: &str) -> (r: bool)
    ensures
        r == contains_text(upper_text(hay@), needle@),
{
    find_text(hay, needle, Fold::Upper)
}

/// Whether `needle` occurs in `hay` (`str::contains`).
pub fn contains(hay: &str, needle: &str) -> (r: bool)
    ensures
        r == contains_text(hay@, needle@),
{
    find_text(hay, needle, Fold::Keep)
}

/// Appends the character at position `i` of `s`.
pub fn push_char_at(out: &mut String, s: &str, i: usize)
    requires
        i < s@.len(),
        i < usize::MAX,
    ensures
        final(out)@ == old(out)@.push(s@[i as int]),
{
    let one = s.substring_char(i, i + 1);
    out.append(one);
    assert(one@ =~= seq![s@[i as int]]);
}

/// Lower-case hexadecimal rendering of `n` without leading zeros.
pub open spec fn hex_number(n: nat) -> Seq<char>
    decreases n,
{
    if n < 16 {
        seq![hex_digit(n as int)]
    } else {
        hex_number(n / 16).push(hex_digit((n % 16) as int))
    }
}

/// Appends the hexadecimal rendering of `n` (no leading zeros).
pub fn push_hex_number(out: &mut String, n: u64)
    ensures
        final(out)@ == old(out)@ + hex_number(n as nat),
    decreases n,
{
    if n < 16 {
        push_hex_digit(out, n as u8);
        assert(old(out)@.push(hex_digit(n as int)) =~= old(out)@ + hex_number(n as nat));
    } else {
        push_hex_number(out, n / 16);
        push_hex_digit(out, (n % 16) as u8);
        assert(out@ =~= old(out)@ + hex_number(n as nat));
    }
}

/// `s` with every `from` replaced by `to` (`str::replace` with characters).
pub open spec fn replaced(s: Seq<char>, from: char, to: char) -> Seq<char> {
    s.map_values(|c: char| if c == from { to } else { c })
}

/// Replaces every `from` in `s` by the one character of `to`.
pub fn replace_char(s: &str, from: char, to: &str) -> (r: String)
    requires
        to@.len() == 1,
    ensures
        r@ == replaced(s@, from, to@[0]),
{
    let n = s.unicode_len();
    let mut r = String::new();
    let mut i: usize = 0;
    while i < n
        invariant
            n == s@.len(),
            i <= n,
            to@.len() == 1,
            r@ =~= replaced(s@.subrange(0, i as int), from, to@[0]),
        decreases n - i,
    {
        let c = s.get_char(i);
        let ghost r0 = r@;
        if c == from {
            r.append(to);
        } else {
            push_char_at(&mut r, s, i);
        }
        assert(r@ =~= r0.push(if c == from { to@[0] } else { c }));
        i = i + 1;
    }
    assert(s@.subrange(0, n as int) =~= s@);
    r
}

} // verus!
