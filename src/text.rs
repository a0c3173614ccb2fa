use vstd::prelude::*;
use vstd::string::*;

verus! {

/// Whether `c` has the Unicode White_Space property.
pub open spec fn is_space_spec(c: char) -> bool {
    ('\u{9}' <= c && c <= '\u{d}') || c == ' ' || c == '\u{85}' || c == '\u{a0}' || c == '\u{1680}'
        || ('\u{2000}' <= c && c <= '\u{200a}') || c == '\u{2028}' || c == '\u{2029}'
        || c == '\u{202f}' || c == '\u{205f}' || c == '\u{3000}'
}

/// Whether `c` is white space, as `char::is_whitespace` decides it.
pub fn is_space(c: char) -> (r: bool)
    ensures
        r == is_space_spec(c),
{
    ('\u{9}' <= c && c <= '\u{d}') || c == ' ' || c == '\u{85}' || c == '\u{a0}' || c == '\u{1680}'
        || ('\u{2000}' <= c && c <= '\u{200a}') || c == '\u{2028}' || c == '\u{2029}'
        || c == '\u{202f}' || c == '\u{205f}' || c == '\u{3000}'
}

/// The value of a decimal digit character.
pub open spec fn digit_value(c: char) -> int {
    (c as u32) as int - ('0' as u32) as int
}

/// Whether `s` consists of ASCII decimal digits only.
pub open spec fn all_digits(s: Seq<char>) -> bool {
    forall|i: int| 0 <= i < s.len() ==> '0' <= #[trigger] s[i] && s[i] <= '9'
}

/// The number that a string of decimal digits denotes.
pub open spec fn digits_value(s: Seq<char>) -> int
    decreases s.len(),
{
    if s.len() == 0 {
        0
    } else {
        digits_value(s.drop_last()) * 10 + digit_value(s.last())
    }
}

/// The 16-bit signed number that `s` denotes: an optional `+` or `-`, then one or more
/// decimal digits, within range.
pub open spec fn decimal_word(s: Seq<char>) -> Option<i16> {
    let neg = s.len() > 0 && s[0] == '-';
    let plus = s.len() > 0 && s[0] == '+';
    let body = if neg || plus { s.skip(1) } else { s };
    let v = if neg { -digits_value(body) } else { digits_value(body) };
    if body.len() > 0 && all_digits(body) && -32768 <= v <= 32767 {
        Some(v as i16)
    } else {
        None
    }
}

/// The character of a decimal digit `d < 10`.
pub open spec fn digit_char(d: int) -> char {
    if d == 0 {
        '0'
    } else if d == 1 {
        '1'
    } else if d == 2 {
        '2'
    } else if d == 3 {
        '3'
    } else if d == 4 {
        '4'
    } else if d == 5 {
        '5'
    } else if d == 6 {
        '6'
    } else if d == 7 {
        '7'
    } else if d == 8 {
        '8'
    } else {
        '9'
    }
}

/// The decimal digits of `v`, without leading zeros.
pub open spec fn digits_of(v: nat) -> Seq<char>
    decreases v,
{
    if v < 10 {
        seq![digit_char(v as int)]
    } else {
        digits_of(v / 10).push(digit_char((v % 10) as int))
    }
}

/// The decimal form of `n`, with a `-` in front of a negative number.
pub open spec fn decimal_of(n: i16) -> Seq<char> {
    if n < 0 {
        seq!['-'] + digits_of((-n) as nat)
    } else {
        digits_of(n as nat)
    }
}

/// Relies on `str::parse::<i16>` (std's `FromStr` for `i16`): it accepts exactly an
/// optional sign followed by at least one ASCII digit, with a value in range.
#[verifier::external_body]
pub(crate) fn parse_word(s: &str) -> (r: Option<i16>)
    ensures
        r == decimal_word(s@),
{
    s.parse::<i16>().ok()
}

/// Relies on `i16::to_string` (std's `Display` for `i16`): decimal, `-` before a negative.
#[verifier::external_body]
pub(crate) fn word_text(n: i16) -> (r: String)
    ensures
        r@ == decimal_of(n),
{
    n.to_string()
}

/// Relies on collecting chars into a `String` (std's `FromIterator<char>`): the same
/// characters in the same order.
#[verifier::external_body]
pub(crate) fn string_of_chars(v: &Vec<char>) -> (r: String)
    ensures
        r@ == v@,
{
    v.iter().collect()
}

/// The first index at or after `i` where `l` holds `c`, or `l.len()` if there is none.
pub open spec fn find_from(l: Seq<char>, c: char, i: int) -> int
    decreases l.len() - i,
{
    if 0 <= i < l.len() && l[i] != c {
        find_from(l, c, i + 1)
    } else {
        i
    }
}

/// The first index at or after `i` where `l` holds no white space, or `l.len()`.
pub open spec fn skip_spaces(l: Seq<char>, i: int) -> int
    decreases l.len() - i,
{
    if 0 <= i < l.len() && is_space_spec(l[i]) {
        skip_spaces(l, i + 1)
    } else {
        i
    }
}

/// Moving down from `j`, the first index above `lo` not preceded by white space.
pub open spec fn back_spaces(l: Seq<char>, lo: int, j: int) -> int
    decreases j - lo,
{
    if lo < j <= l.len() && is_space_spec(l[j - 1]) {
        back_spaces(l, lo, j - 1)
    } else {
        j
    }
}

/// Finds `c` in `s` from index `from`.
pub fn find_char(s: &str, c: char, from: usize) -> (r: usize)
    requires
        from <= s@.len(),
    ensures
        r as int == find_from(s@, c, from as int),
        from <= r <= s@.len(),
{
    let n = s.unicode_len();
    let mut i = from;
    while i < n && s.get_char(i) != c
        invariant
            n == s@.len(),
            from <= i <= n,
            find_from(s@, c, i as int) == find_from(s@, c, from as int),
        decreases n - i,
    {
        i = i + 1;
    }
    i
}

} // verus!
