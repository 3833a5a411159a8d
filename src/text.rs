//! Text helpers shared by the modules: number formatting, suffix tests, file
//! extensions and case folding.
use vstd::prelude::*;

verus! {

/// The character of the digit `d` (below 16), lower-case letters past nine.
pub open spec fn digit_char(d: nat) -> char {
    seq!['0', '1', '2', '3', '4', '5', '6', '7', '8', '9', 'a', 'b', 'c', 'd', 'e', 'f'][d as int]
}

/// The decimal digits of `n`, most significant first, no leading zeros.
pub open spec fn dec_digits(n: nat) -> Seq<char>
    decreases n,
{
    if n < 10 {
        seq![digit_char(n)]
    } else {
        dec_digits(n / 10).push(digit_char(n % 10))
    }
}

/// The hexadecimal digits of `n`, most significant first, no leading zeros.
pub open spec fn hex_digits(n: nat) -> Seq<char>
    decreases n,
{
    if n < 16 {
        seq![digit_char(n)]
    } else {
        hex_digits(n / 16).push(digit_char(n % 16))
    }
}

/// `n` written in decimal, with a leading '-' when negative.
pub open spec fn decimal(n: int) -> Seq<char> {
    if n < 0 {
        seq!['-'] + dec_digits((-n) as nat)
    } else {
        dec_digits(n as nat)
    }
}

/// Relies on std's `Display` for `i64` through `to_string`: decimal digits,
/// with a leading '-' for a negative value.
#[verifier::external_body]
pub(crate) fn decimal_string(n: i64) -> (r: String)
    ensures
        r@ == decimal(n as int),
{
    n.to_string()
}

/// Relies on std's `Display` for `u64` through `to_string`: decimal digits.
#[verifier::external_body]
pub(crate) fn decimal_string_u64(n: u64) -> (r: String)
    ensures
        r@ == dec_digits(n as nat),
{
    n.to_string()
}

/// Relies on std's `LowerHex` for `u64` (the `{:x}` format): hexadecimal
/// digits in lower case, without prefix.
#[verifier::external_body]
pub(crate) fn hex_string_u64(n: u64) -> (r: String)
    ensures
        r@ == hex_digits(n as nat),
{
    format!("{:x}", n)
}

/// The value that std's `str::parse::<i64>` reads from `s`, if any.
pub uninterp spec fn parsed_i64(s: Seq<char>) -> Option<i64>;

/// Relies on std's `str::parse::<i64>`: the result depends on the characters
/// alone.
#[verifier::external_body]
pub(crate) fn parse_i64(s: &str) -> (r: Option<i64>)
    ensures
        r == parsed_i64(s@),
{
    s.parse::<i64>().ok()
}

/// What std's `str::to_lowercase` makes of `s` (full Unicode lower-casing).
pub uninterp spec fn lower_of(s: Seq<char>) -> Seq<char>;

/// Relies on std's `str::to_lowercase`: the result depends on the characters
/// alone.
#[verifier::external_body]
pub(crate) fn lowercase(s: &str) -> (r: String)
    ensures
        r@ == lower_of(s@),
{
    s.to_lowercase()
}

/// The code point of `c` with ASCII upper-case letters made lower case.
pub open spec fn ascii_lower(c: char) -> u32 {
    let n = c as u32;
    if 65 <= n <= 90 {
        (n + 32) as u32
    } else {
        n
    }
}

/// `a` and `b` are equal once ASCII letters are compared without case.
pub open spec fn ascii_ci_eq(a: Seq<char>, b: Seq<char>) -> bool {
    &&& a.len() == b.len()
    &&& forall|i: int| 0 <= i < a.len() ==> #[trigger] ascii_lower(a[i]) == ascii_lower(b[i])
}

/// Relies on std's `str::eq_ignore_ascii_case`, which compares as
/// `to_ascii_lowercase(a) == to_ascii_lowercase(b)`: only the letters A to Z
/// are folded, every other character must match exactly.
#[verifier::external_body]
pub(crate) fn eq_ignore_case(a: &str, b: &str) -> (r: bool)
    ensures
        r == ascii_ci_eq(a@, b@),
{
    a.eq_ignore_ascii_case(b)
}

/// Whether `s` ends with `t`.
pub open spec fn has_suffix(s: Seq<char>, t: Seq<char>) -> bool {
    t.len() <= s.len() && s.subrange(s.len() - t.len(), s.len() as int) == t
}

/// Whether `s` ends with `suffix`.
pub fn ends_with(s: &str, suffix: &str) -> (r: bool)
    ensures
        r == has_suffix(s@, suffix@),
{
    let n = s.unicode_len();
    let k = suffix.unicode_len();
    if k > n {
        return false;
    }
    let tail = s.substring_char(n - k, n);
    String::from_str(tail) == String::from_str(suffix)
}

/// Where the part of `s[..i]` after its last '.' starts (0 without a '.').
pub open spec fn ext_start(s: Seq<char>, i: int) -> int
    decreases i,
{
    if i <= 0 || i > s.len() {
        0
    } else if s[i - 1] == '.' {
        i
    } else {
        ext_start(s, i - 1)
    }
}

/// The part of `s` after its last '.', or all of `s` without a '.'.
pub open spec fn extension(s: Seq<char>) -> Seq<char> {
    s.subrange(ext_start(s, s.len() as int), s.len() as int)
}

/// The part of `s` after its last '.', or all of `s` without a '.'.
pub fn extension_of(s: &str) -> (r: String)
    ensures
        r@ == extension(s@),
{
    let n = s.unicode_len();
    let mut i: usize = n;
    while i > 0 && s.get_char(i - 1) != '.'
        invariant
            i <= n,
            n == s@.len(),
            ext_start(s@, n as int) == ext_start(s@, i as int),
        decreases i,
    {
        i = i - 1;
    }
    String::from_str(s.substring_char(i, n))
}

} // verus!
