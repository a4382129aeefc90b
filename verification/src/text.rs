//! Text building: appending characters and writing numbers in decimal.

use vstd::prelude::*;

verus! {

/// Appends one character.
///
/// Calls `String::push`, which appends the character to the end of the string.
#[verifier::external_body]
pub(crate) fn push_char(s: &mut String, c: char)
    ensures
        final(s)@ == old(s)@.push(c),
{
    s.push(c);
}

/// The character that stands for a byte (its code point equals the byte).
pub open spec fn byte_char(b: u8) -> char {
    b as char
}

/// The character that stands for a byte.
pub fn char_of_byte(b: u8) -> (c: char)
    ensures
        c == byte_char(b),
{
    b as char
}

/// The byte that a character stands for (its low 8 bits).
pub fn byte_of_char(c: char) -> (b: u8)
    requires
        (c as int) < 256,
    ensures
        byte_char(b) == c,
{
    c as u8
}

/// The decimal digits of `n`, most significant first, without leading zeros
/// ("0" for zero).
pub open spec fn decimal(n: nat) -> Seq<char>
    decreases n,
{
    if n < 10 {
        seq![digit_char(n)]
    } else {
        decimal(n / 10).push(digit_char(n % 10))
    }
}

/// The character of a decimal digit.
pub open spec fn digit_char(d: nat) -> char {
    (('0' as int) + d) as char
}

/// Appends the decimal digits of `n`.
pub fn push_decimal(s: &mut String, n: u64)
    ensures
        final(s)@ == old(s)@ + decimal(n as nat),
    decreases n,
{
    if n >= 10 {
        push_decimal(s, n / 10);
    }
    let d = (n % 10) as u32;
    let c = char_from_digit(d);
    push_char(s, c);
    proof {
        if n >= 10 {
            assert(decimal(n as nat) == decimal((n / 10) as nat).push(digit_char((n % 10) as nat)));
        }
    }
}

/// The character of a digit below 10.
fn char_from_digit(d: u32) -> (c: char)
    requires
        d < 10,
    ensures
        c == digit_char(d as nat),
{
    if d == 0 { '0' }
    else if d == 1 { '1' }
    else if d == 2 { '2' }
    else if d == 3 { '3' }
    else if d == 4 { '4' }
    else if d == 5 { '5' }
    else if d == 6 { '6' }
    else if d == 7 { '7' }
    else if d == 8 { '8' }
    else { '9' }
}

/// The decimal text of `n`.
pub fn decimal_text(n: u64) -> (r: String)
    ensures
        r@ == decimal(n as nat),
{
    let mut s = String::new();
    push_decimal(&mut s, n);
    assert(s@ =~= decimal(n as nat));
    s
}

/// Appends a piece of text.
pub fn push_text(s: &mut String, t: &str)
    ensures
        final(s)@ == old(s)@ + t@,
{
    s.append(t);
}

/// The characters of a text, in order.
pub fn chars_of(t: &str) -> (r: Vec<char>)
    ensures
        r@ == t@,
{
    let mut out: Vec<char> = Vec::new();
    for c in it: t.chars()
        invariant
            out@ == it.seq().take(it.index() as int),
    {
        out.push(c);
    }
    out
}

/// The text made of the given characters.
pub fn text_of(cs: &Vec<char>) -> (r: String)
    ensures
        r@ == cs@,
{
    let mut s = String::new();
    let mut i: usize = 0;
    while i < cs.len()
        invariant
            i <= cs@.len(),
            s@ == cs@.take(i as int),
        decreases cs@.len() - i,
    {
        push_char(&mut s, cs[i]);
        proof {
            assert(cs@.take(i as int + 1) =~= cs@.take(i as int).push(cs@[i as int]));
        }
        i += 1;
    }
    assert(cs@.take(cs@.len() as int) =~= cs@);
    s
}

/// Whether a character is white space in the Unicode sense (the
/// `White_Space` property, as `char::is_whitespace` tells it).
pub open spec fn is_space(c: char) -> bool {
    let v = c as u32;
    (9 <= v <= 13) || v == 32 || v == 0x85 || v == 0xA0 || v == 0x1680 || (0x2000 <= v <= 0x200A) || v
        == 0x2028 || v == 0x2029 || v == 0x202F || v == 0x205F || v == 0x3000
}

/// White space, as a predicate.
pub open spec fn spaces() -> spec_fn(char) -> bool {
    |c: char| is_space(c)
}

/// Whether a character is white space.
pub fn is_space_char(c: char) -> (r: bool)
    ensures
        r == is_space(c),
{
    let v = c as u32;
    (9 <= v && v <= 13) || v == 32 || v == 0x85 || v == 0xA0 || v == 0x1680 || (0x2000 <= v && v <= 0x200A)
        || v == 0x2028 || v == 0x2029 || v == 0x202F || v == 0x205F || v == 0x3000
}

/// The number of leading characters of `s` that satisfy `p`.
pub open spec fn leading(s: Seq<char>, p: spec_fn(char) -> bool) -> nat
    decreases s.len(),
{
    if s.len() > 0 && p(s[0]) {
        1 + leading(s.drop_first(), p)
    } else {
        0
    }
}

/// The number of trailing characters of `s` that satisfy `p`.
pub open spec fn trailing(s: Seq<char>, p: spec_fn(char) -> bool) -> nat
    decreases s.len(),
{
    if s.len() > 0 && p(s.last()) {
        1 + trailing(s.drop_last(), p)
    } else {
        0
    }
}

/// `s` without its leading characters that satisfy `p`.
pub open spec fn trim_start_where(s: Seq<char>, p: spec_fn(char) -> bool) -> Seq<char> {
    s.subrange(leading(s, p) as int, s.len() as int)
}

/// `s` without its trailing characters that satisfy `p`.
pub open spec fn trim_end_where(s: Seq<char>, p: spec_fn(char) -> bool) -> Seq<char> {
    s.subrange(0, s.len() - trailing(s, p))
}

/// `s` without leading and trailing white space.
pub open spec fn trimmed(s: Seq<char>) -> Seq<char> {
    trim_end_where(trim_start_where(s, spaces()), spaces())
}

/// Whether every character of `s` is white space.
pub open spec fn all_space(s: Seq<char>) -> bool {
    forall|i: int| 0 <= i < s.len() ==> is_space(#[trigger] s[i])
}

/// The position of the first character at or after `from` that is not
/// white space (the length when there is none).
fn skip_spaces(cs: &Vec<char>, from: usize) -> (r: usize)
    requires
        from <= cs@.len(),
    ensures
        from <= r <= cs@.len(),
        leading(cs@.subrange(from as int, cs@.len() as int), spaces()) == r - from,
{
    let n = cs.len();
    let mut i = from;
    let ghost p = spaces();
    while i < n && is_space_char(cs[i])
        invariant
            from <= i <= n,
            n == cs@.len(),
            p == spaces(),
            leading(cs@.subrange(from as int, n as int), p) == (i - from) + leading(cs@.subrange(i as int, n as int), p),
        decreases n - i,
    {
        assert(cs@.subrange(i as int, n as int).drop_first() =~= cs@.subrange(i as int + 1, n as int));
        assert(cs@.subrange(i as int, n as int)[0] == cs@[i as int]);
        assert(p(cs@[i as int]));
        i += 1;
    }
    i
}

/// The end of the span `from..to` of `cs` once trailing white space is cut.
fn cut_spaces(cs: &Vec<char>, from: usize, to: usize) -> (r: usize)
    requires
        from <= to <= cs@.len(),
    ensures
        from <= r <= to,
        trailing(cs@.subrange(from as int, to as int), spaces()) == to - r,
{
    let mut j = to;
    let ghost p = spaces();
    while j > from && is_space_char(cs[j - 1])
        invariant
            from <= j <= to,
            to <= cs@.len(),
            p == spaces(),
            trailing(cs@.subrange(from as int, to as int), p) == (to - j) + trailing(cs@.subrange(from as int, j as int), p),
        decreases j - from,
    {
        assert(cs@.subrange(from as int, j as int).drop_last() =~= cs@.subrange(from as int, j as int - 1));
        assert(cs@.subrange(from as int, j as int).last() == cs@[j as int - 1]);
        assert(p(cs@[j as int - 1]));
        j -= 1;
    }
    j
}

/// The characters of `cs` without leading and trailing white space.
pub fn trim_chars(cs: &Vec<char>) -> (r: Vec<char>)
    ensures
        r@ == trimmed(cs@),
{
    let n = cs.len();
    let a = skip_spaces(cs, 0);
    let b = cut_spaces(cs, a, n);
    assert(cs@.subrange(0, n as int) =~= cs@);
    let mut out: Vec<char> = Vec::new();
    let mut k = a;
    while k < b
        invariant
            a <= k <= b,
            b <= cs@.len(),
            out@ == cs@.subrange(a as int, k as int),
        decreases b - k,
    {
        out.push(cs[k]);
        assert(cs@.subrange(a as int, k as int + 1) =~= cs@.subrange(a as int, k as int).push(cs@[k as int]));
        k += 1;
    }
    proof {
        let t = cs@.subrange(a as int, n as int);
        assert(trim_start_where(cs@, spaces()) == t);
        assert(t.subrange(0, t.len() - trailing(t, spaces())) =~= cs@.subrange(a as int, b as int));
    }
    out
}

} // verus!
