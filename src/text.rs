//! Small string building blocks: appending characters, decimal numbers and
//! ASCII case folding.
use vstd::prelude::*;

verus! {

/// The characters of each string of `v`.
pub open spec fn string_views(v: Seq<String>) -> Seq<Seq<char>> {
    v.map_values(|s: String| s@)
}

/// Relies on String::push: the character is appended at the end.
#[verifier::external_body]
pub(crate) fn push_char(s: &mut String, c: char)
    ensures
        final(s)@ == old(s)@.push(c),
{
    s.push(c);
}

/// Appends the whole of `t` to `s`.
pub fn push_str(s: &mut String, t: &str)
    ensures
        final(s)@ == old(s)@ + t@,
{
    s.append(t);
}

/// The character of the decimal digit `d` (below ten).
pub open spec fn digit_char(d: nat) -> char {
    (48 + d) as char
}

/// The decimal digits of `n`, most significant first, without leading zeros.
pub open spec fn decimal(n: nat) -> Seq<char>
    decreases n,
{
    if n < 10 {
        seq![digit_char(n)]
    } else {
        decimal(n / 10).push(digit_char(n % 10))
    }
}

/// Appends the decimal digits of `n` to `s`.
pub fn push_decimal(s: &mut String, n: u64)
    ensures
        final(s)@ == old(s)@ + decimal(n as nat),
    decreases n,
{
    let ghost start = s@;
    if n >= 10 {
        push_decimal(s, n / 10);
    }
    let d: u8 = (n % 10) as u8;
    push_char(s, (48u8 + d) as char);
    assert(s@ =~= start + decimal(n as nat));
}

/// The lower-case form of an ASCII letter; any other character is kept.
pub open spec fn lower_char(c: char) -> char {
    if 'A' <= c && c <= 'Z' {
        ((c as u32) + 32) as char
    } else {
        c
    }
}

/// The upper-case form of an ASCII letter; any other character is kept.
pub open spec fn upper_char(c: char) -> char {
    if 'a' <= c && c <= 'z' {
        ((c as u32) - 32) as char
    } else {
        c
    }
}

/// `s` with each ASCII letter in lower case.
pub open spec fn lower_seq(s: Seq<char>) -> Seq<char> {
    s.map_values(|c: char| lower_char(c))
}

/// `s` with each ASCII letter in upper case.
pub open spec fn upper_seq(s: Seq<char>) -> Seq<char> {
    s.map_values(|c: char| upper_char(c))
}

/// The lower-case form of one character, as `lower_char` states it.
pub fn to_lower_char(c: char) -> (r: char)
    ensures
        r == lower_char(c),
{
    if 'A' <= c && c <= 'Z' {
        ((c as u8) + 32) as char
    } else {
        c
    }
}

/// Appends `t` to `s` with each ASCII letter in lower case.
pub fn push_lowercase(s: &mut String, t: &str)
    ensures
        final(s)@ == old(s)@ + lower_seq(t@),
{
    let ghost start = s@;
    let n = t.unicode_len();
    let mut i: usize = 0;
    while i < n
        invariant
            n == t@.len(),
            i <= n,
            s@ == start + lower_seq(t@.subrange(0, i as int)),
        decreases n - i,
    {
        let c = t.get_char(i);
        push_char(s, to_lower_char(c));
        i = i + 1;
        assert(lower_seq(t@.subrange(0, i as int)) =~= lower_seq(t@.subrange(0, i - 1)).push(
            lower_char(c),
        ));
    }
    assert(t@.subrange(0, n as int) =~= t@);
}

} // verus!
