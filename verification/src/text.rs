//! Text helpers: string comparison, string building and the spec-level
//! formatting functions that the key display code is stated over.
use vstd::prelude::*;

verus! {

/// Compares two string slices by content (`<str as PartialEq>::eq`).
/// Trusted: the result is `true` exactly when both slices hold the same
/// characters, as std documents for string equality.
#[verifier::external_body]
pub fn str_eq(a: &str, b: &str) -> (r: bool)
    ensures
        r == (a@ == b@),
{
    a == b
}

/// Appends one character to a string (`String::push`).
/// Trusted: the string afterwards holds its former characters followed by `c`.
#[verifier::external_body]
pub fn push_char(s: &mut String, c: char)
    ensures
        final(s)@ == old(s)@.push(c),
{
    s.push(c)
}

/// A new string holding the characters of `s`.
pub fn text(s: &str) -> (r: String)
    ensures
        r@ == s@,
{
    let mut r = String::new();
    r.append(s);
    r
}

/// `sep`-separated concatenation of `parts`.
pub open spec fn join(parts: Seq<Seq<char>>, sep: Seq<char>) -> Seq<char>
    decreases parts.len(),
{
    if parts.len() == 0 {
        Seq::empty()
    } else if parts.len() == 1 {
        parts[0]
    } else {
        join(parts.drop_last(), sep) + sep + parts.last()
    }
}

/// The characters of each string.
pub open spec fn string_views(s: Seq<String>) -> Seq<Seq<char>> {
    s.map_values(|x: String| x@)
}

/// The character of a decimal digit.
pub open spec fn digit(d: int) -> char {
    if d == 0 {
        '0'
    } else if d == 1 {
        '1'
    } else if d == 2 {
        '2'
    } else if d == 3 {
        '3'
    } else if d == 4 {
        '4'
    } else if d == 5 {
        '5'
    } else if d == 6 {
        '6'
    } else if d == 7 {
        '7'
    } else if d == 8 {
        '8'
    } else {
        '9'
    }
}

/// Decimal notation of a natural number, without leading zeros.
pub open spec fn decimal(n: nat) -> Seq<char>
    decreases n,
{
    if n < 10 {
        seq![digit(n as int)]
    } else {
        decimal(n / 10) + seq![digit((n % 10) as int)]
    }
}

/// ASCII lower case of a character: 'A'..='Z' map to 'a'..='z', all else is unchanged.
pub open spec fn lower(c: char) -> char {
    if 'A' <= c <= 'Z' {
        ((c as u32) + 32) as char
    } else {
        c
    }
}

fn digit_char(d: u8) -> (c: char)
    requires
        d < 10,
    ensures
        c == digit(d as int),
{
    if d == 0 {
        '0'
    } else if d == 1 {
        '1'
    } else if d == 2 {
        '2'
    } else if d == 3 {
        '3'
    } else if d == 4 {
        '4'
    } else if d == 5 {
        '5'
    } else if d == 6 {
        '6'
    } else if d == 7 {
        '7'
    } else if d == 8 {
        '8'
    } else {
        '9'
    }
}

/// Appends the decimal notation of `n` to `s`.
pub fn push_decimal(s: &mut String, n: u8)
    ensures
        final(s)@ == old(s)@ + decimal(n as nat),
{
    proof {
        reveal_with_fuel(decimal, 3);
    }
    if n >= 100 {
        push_char(s, digit_char(n / 100));
        push_char(s, digit_char((n / 10) % 10));
        push_char(s, digit_char(n % 10));
        assert(decimal(n as nat) =~= seq![digit((n / 100) as int), digit(((n / 10) % 10) as int), digit((n % 10) as int)]);
    } else if n >= 10 {
        push_char(s, digit_char(n / 10));
        push_char(s, digit_char(n % 10));
        assert(decimal(n as nat) =~= seq![digit((n / 10) as int), digit((n % 10) as int)]);
    } else {
        push_char(s, digit_char(n));
    }
}

/// ASCII lower case of `c` (`char::to_ascii_lowercase`).
pub fn to_ascii_lowercase(c: char) -> (r: char)
    ensures
        r == lower(c),
{
    if 'A' <= c && c <= 'Z' {
        ((c as u8) + 32) as char
    } else {
        c
    }
}

/// Whether `c` is an ASCII upper-case letter (`char::is_ascii_uppercase`).
pub fn is_ascii_uppercase(c: char) -> (r: bool)
    ensures
        r == ('A' <= c <= 'Z'),
{
    'A' <= c && c <= 'Z'
}

} // verus!
