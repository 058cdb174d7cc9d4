//! Building display strings: decimal and hexadecimal numbers, byte lists.

use vstd::prelude::*;
use vstd::string::StrSliceExecFns;

verus! {

/// Appends `c` to `s` (`String::push`).
#[verifier::external_body]
pub fn push_char(s: &mut String, c: char)
    ensures
        final(s)@ == old(s)@.push(c),
{
    s.push(c);
}

/// Appends `t` to `s`.
pub fn push_str(s: &mut String, t: &str)
    ensures
        final(s)@ == old(s)@ + t@,
{
    s.append(t);
}

/// The character of a digit value below 16, upper case for values above 9.
pub open spec fn hex_digit_upper(d: nat) -> char {
    if d < 10 {
        ((d + 48) as u32) as char
    } else {
        ((d + 55) as u32) as char
    }
}

/// The character of a digit value below 16, lower case for values above 9.
pub open spec fn hex_digit_lower(d: nat) -> char {
    if d < 10 {
        ((d + 48) as u32) as char
    } else {
        ((d + 87) as u32) as char
    }
}

/// Decimal representation of `n` (no leading zeros; "0" for zero).
pub open spec fn spec_decimal(n: nat) -> Seq<char>
    decreases n,
{
    if n < 10 {
        seq![hex_digit_upper(n)]
    } else {
        spec_decimal(n / 10).push(hex_digit_upper(n % 10))
    }
}

/// Upper-case hexadecimal representation of `n` (no leading zeros; "0" for zero).
pub open spec fn spec_hex_upper(n: nat) -> Seq<char>
    decreases n,
{
    if n < 16 {
        seq![hex_digit_upper(n)]
    } else {
        spec_hex_upper(n / 16).push(hex_digit_upper(n % 16))
    }
}

/// Lower-case hexadecimal representation of `n` (no leading zeros; "0" for zero).
pub open spec fn spec_hex_lower(n: nat) -> Seq<char>
    decreases n,
{
    if n < 16 {
        seq![hex_digit_lower(n)]
    } else {
        spec_hex_lower(n / 16).push(hex_digit_lower(n % 16))
    }
}

fn digit_char(d: u64, upper: bool) -> (c: char)
    requires
        d < 16,
    ensures
        upper ==> c == hex_digit_upper(d as nat),
        !upper ==> c == hex_digit_lower(d as nat),
{
    let d8 = d as u8;
    if d8 < 10 {
        (d8 + 48) as char
    } else if upper {
        (d8 + 55) as char
    } else {
        (d8 + 87) as char
    }
}

/// Appends the digits of `n` in base `base` (10 or 16) to `s`.
fn push_number(s: &mut String, n: u64, base: u64, upper: bool)
    requires
        base == 10 || base == 16,
        base == 10 ==> upper,
    ensures
        base == 10 ==> final(s)@ == old(s)@ + spec_decimal(n as nat),
        base == 16 && upper ==> final(s)@ == old(s)@ + spec_hex_upper(n as nat),
        base == 16 && !upper ==> final(s)@ == old(s)@ + spec_hex_lower(n as nat),
    decreases n,
{
    if n >= base {
        push_number(s, n / base, base, upper);
    }
    let c = digit_char(n % base, upper);
    push_char(s, c);
    proof {
        if base == 10 {
            assert(spec_decimal(n as nat) =~= if n < 10 {
                seq![hex_digit_upper(n as nat)]
            } else {
                spec_decimal((n / 10) as nat).push(hex_digit_upper((n % 10) as nat))
            });
        }
    }
}

/// Decimal representation of `n`.
pub fn decimal_string(n: u64) -> (s: String)
    ensures
        s@ == spec_decimal(n as nat),
{
    let mut s = String::new();
    push_number(&mut s, n, 10, true);
    assert(s@ =~= spec_decimal(n as nat));
    s
}

/// Appends the decimal representation of `n` to `s`.
pub fn push_decimal(s: &mut String, n: u64)
    ensures
        final(s)@ == old(s)@ + spec_decimal(n as nat),
{
    push_number(s, n, 10, true);
}

/// Appends the upper-case hexadecimal representation of `n` to `s`.
pub fn push_hex_upper(s: &mut String, n: u64)
    ensures
        final(s)@ == old(s)@ + spec_hex_upper(n as nat),
{
    push_number(s, n, 16, true);
}

/// Appends the lower-case hexadecimal representation of `n` to `s`.
pub fn push_hex_lower(s: &mut String, n: u64)
    ensures
        final(s)@ == old(s)@ + spec_hex_lower(n as nat),
{
    push_number(s, n, 16, false);
}

} // verus!

verus! {

/// Whether two strings are equal.
pub fn str_equal(a: &str, b: &str) -> (r: bool)
    ensures
        r == (a@ == b@),
{
    let x = a.as_bytes();
    let y = b.as_bytes();
    let eq = x.len() == y.len() && crate::bytes::bytes_at_exec(x, 0, y);
    proof {
        vstd::utf8::encode_utf8_decode_utf8(a@);
        vstd::utf8::encode_utf8_decode_utf8(b@);
        if eq {
            assert(x@ =~= x@.subrange(0, y@.len() as int));
            assert(x@ == y@);
        }
        if a@ == b@ {
            assert(x@.subrange(0, y@.len() as int) =~= y@);
        }
    }
    eq
}


/// Name of the result of `str::to_lowercase` (full Unicode lower-casing).
pub uninterp spec fn lowercase_of(s: Seq<char>) -> Seq<char>;

/// `str::to_lowercase`. Trusted: the result is named by [`lowercase_of`].
#[verifier::external_body]
pub(crate) fn to_lowercase(s: &str) -> (r: String)
    ensures
        r@ == lowercase_of(s@),
{
    s.to_lowercase()
}

/// A UTF-16 unit that is not a surrogate stands for itself.
pub open spec fn is_surrogate(u: u16) -> bool {
    0xD800 <= u <= 0xDFFF
}

/// A leading (high) surrogate followed by a trailing (low) one begins `u`.
pub open spec fn surrogate_pair_at_start(u: Seq<u16>) -> bool {
    u.len() >= 2 && 0xD800 <= u[0] <= 0xDBFF && 0xDC00 <= u[1] <= 0xDFFF
}

/// The character of the surrogate pair that begins `u`.
pub open spec fn pair_char(u: Seq<u16>) -> char {
    ((0x10000 + (u[0] - 0xD800) * 0x400 + (u[1] - 0xDC00)) as u32) as char
}

/// UTF-16 decoding: each unit outside the surrogate range is a character,
/// each high-low surrogate pair one character; `None` when a surrogate is
/// unpaired.
pub open spec fn utf16_decode_of(units: Seq<u16>) -> Option<Seq<char>>
    decreases units.len(),
{
    if units.len() == 0 {
        Some(Seq::empty())
    } else if !is_surrogate(units[0]) {
        match utf16_decode_of(units.drop_first()) {
            Some(rest) => Some(seq![(units[0] as u32) as char] + rest),
            None => None,
        }
    } else if surrogate_pair_at_start(units) {
        match utf16_decode_of(units.subrange(2, units.len() as int)) {
            Some(rest) => Some(seq![pair_char(units)] + rest),
            None => None,
        }
    } else {
        None
    }
}

/// Lenient UTF-16 decoding: as [`utf16_decode_of`], with each unpaired
/// surrogate unit replaced by U+FFFD.
pub open spec fn utf16_lossy_of(units: Seq<u16>) -> Seq<char>
    decreases units.len(),
{
    if units.len() == 0 {
        Seq::empty()
    } else if !is_surrogate(units[0]) {
        seq![(units[0] as u32) as char] + utf16_lossy_of(units.drop_first())
    } else if surrogate_pair_at_start(units) {
        seq![pair_char(units)] + utf16_lossy_of(units.subrange(2, units.len() as int))
    } else {
        seq!['\u{FFFD}'] + utf16_lossy_of(units.drop_first())
    }
}

/// `String::from_utf16`, with its error turned into `None`. Trusted: the
/// function decodes UTF-16 and fails on invalid data, which is an unpaired
/// surrogate (see [`utf16_decode_of`]).
#[verifier::external_body]
pub(crate) fn from_utf16(units: &[u16]) -> (r: Option<String>)
    ensures
        match r {
            Some(s) => utf16_decode_of(units@) == Some(s@),
            None => utf16_decode_of(units@) is None,
        },
{
    match String::from_utf16(units) {
        Ok(s) => Some(s),
        Err(_) => None,
    }
}

/// `c` stands at index `i` of `s`.
pub open spec fn char_at(s: Seq<char>, c: char) -> spec_fn(int) -> bool {
    |i: int| s[i] == c
}

/// Index of the last occurrence of `c` in `s`, if any.
pub open spec fn last_index_of(s: Seq<char>, c: char) -> Option<int> {
    crate::bytes::last_match(char_at(s, c), 0, s.len() as int)
}

/// Index of the last occurrence of `c` in `s` (`str::rfind`, counted in characters).
pub fn rfind_char(s: &str, c: char) -> (r: Option<usize>)
    ensures
        r matches Some(i) ==> last_index_of(s@, c) == Some(i as int),
        r is None ==> last_index_of(s@, c) is None,
{
    let n = s.unicode_len();
    let mut i = n;
    while i > 0
        invariant
            i <= n,
            n == s@.len(),
            last_index_of(s@, c) == crate::bytes::last_match(char_at(s@, c), 0, i as int),
        decreases i,
    {
        if s.get_char(i - 1) == c {
            return Some(i - 1);
        }
        i -= 1;
    }
    None
}


/// The characters of `s`.
pub fn to_chars(s: &str) -> (v: Vec<char>)
    ensures
        v@ == s@,
{
    let n = s.unicode_len();
    let mut v: Vec<char> = Vec::new();
    let mut i: usize = 0;
    while i < n
        invariant
            i <= n,
            n == s@.len(),
            v@ == s@.subrange(0, i as int),
        decreases n - i,
    {
        v.push(s.get_char(i));
        i += 1;
    }
    v
}

/// The string of characters `v`.
pub fn from_chars(v: &[char]) -> (s: String)
    ensures
        s@ == v@,
{
    let mut s = String::new();
    let mut i: usize = 0;
    while i < v.len()
        invariant
            i <= v@.len(),
            s@ == v@.subrange(0, i as int),
        decreases v@.len() - i,
    {
        push_char(&mut s, v[i]);
        i += 1;
    }
    s
}


/// Name of the result of `char::is_whitespace`.
pub uninterp spec fn is_whitespace_of(c: char) -> bool;

/// `char::is_whitespace`. Trusted: the result is named by [`is_whitespace_of`].
#[verifier::external_body]
pub(crate) fn char_is_whitespace(c: char) -> (r: bool)
    ensures
        r == is_whitespace_of(c),
{
    c.is_whitespace()
}

/// Whitespace, as `char::is_whitespace` decides.
pub open spec fn whitespace() -> spec_fn(char) -> bool {
    |c: char| is_whitespace_of(c)
}

} // verus!
