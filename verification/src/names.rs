//! Recovering a file's name from metadata found in its first bytes: ZIP
//! local headers, PDF titles, JPEG EXIF dates, ID3v2 titles, or readable text.

use vstd::prelude::*;
use vstd::string::StrSliceExecFns;
use vstd::utf8::{decode_utf8, valid_utf8};
use crate::bytes::{bytes_at, bytes_at_exec, le_u16, read_le_u16};
use crate::signatures::FileType;
use crate::text::{char_is_whitespace, is_whitespace_of, whitespace, from_chars, from_utf16, push_char, push_str, to_chars, utf16_decode_of};

verus! {

/// Name of the result of `char::is_alphanumeric`.
pub uninterp spec fn is_alphanumeric_of(c: char) -> bool;

/// Name of the result of `char::is_numeric`.
pub uninterp spec fn is_numeric_of(c: char) -> bool;

/// Name of the text that `String::from_utf8_lossy` makes of some bytes.
pub uninterp spec fn utf8_lossy_of(bytes: Seq<u8>) -> Seq<char>;

/// `char::is_alphanumeric`. Trusted: the result is named by [`is_alphanumeric_of`].
#[verifier::external_body]
pub(crate) fn char_is_alphanumeric(c: char) -> (r: bool)
    ensures
        r == is_alphanumeric_of(c),
{
    c.is_alphanumeric()
}

/// `char::is_numeric`. Trusted: the result is named by [`is_numeric_of`].
#[verifier::external_body]
fn char_is_numeric(c: char) -> (r: bool)
    ensures
        r == is_numeric_of(c),
{
    c.is_numeric()
}

/// `String::from_utf8_lossy`, as an owned `String`. Trusted: the result is
/// named by [`utf8_lossy_of`].
#[verifier::external_body]
pub(crate) fn utf8_lossy(bytes: &[u8]) -> (r: String)
    ensures
        r@ == utf8_lossy_of(bytes@),
{
    String::from_utf8_lossy(bytes).into_owned()
}

/// `std::str::from_utf8`, with its error turned into `None`. Trusted: it
/// succeeds exactly on valid UTF-8, and the text is the decoded bytes.
#[verifier::external_body]
fn utf8_str(bytes: &[u8]) -> (r: Option<&str>)
    ensures
        r is Some <==> valid_utf8(bytes@),
        r matches Some(s) ==> s@ == decode_utf8(bytes@),
{
    std::str::from_utf8(bytes).ok()
}

/// Number of bytes of the UTF-8 encoding of `c`.
pub open spec fn utf8_width(c: char) -> nat {
    if (c as u32) < 0x80 {
        1
    } else if (c as u32) < 0x800 {
        2
    } else if (c as u32) < 0x10000 {
        3
    } else {
        4
    }
}

/// Number of bytes of the UTF-8 encoding of `s` (what `str::len` counts).
pub open spec fn utf8_len(s: Seq<char>) -> nat
    decreases s.len(),
{
    if s.len() == 0 {
        0
    } else {
        utf8_len(s.drop_last()) + utf8_width(s.last())
    }
}

/// `utf8_len(v)`, or `cap` when that is smaller.
pub(crate) fn utf8_len_capped(v: &[char], cap: u64) -> (n: u64)
    ensures
        n == if utf8_len(v@) < cap { utf8_len(v@) } else { cap as nat },
{
    if cap == 0 {
        return 0;
    }
    let mut n: u64 = 0;
    let mut i: usize = 0;
    assert(v@.subrange(0, 0) =~= Seq::<char>::empty());
    while i < v.len()
        invariant
            i <= v@.len(),
            n == utf8_len(v@.subrange(0, i as int)),
            n < cap,
        decreases v@.len() - i,
    {
        let c = v[i];
        let code = c as u32;
        let w: u64 = if code < 0x80 {
            1
        } else if code < 0x800 {
            2
        } else if code < 0x10000 {
            3
        } else {
            4
        };
        assert(v@.subrange(0, i + 1).drop_last() =~= v@.subrange(0, i as int));
        if w >= cap - n {
            proof {
                lemma_utf8_len_prefix(v@, i + 1);
            }
            return cap;
        }
        n = n + w;
        i += 1;
    }
    assert(v@.subrange(0, v@.len() as int) =~= v@);
    n
}

/// The UTF-8 length of a prefix is at most that of the whole.
pub proof fn lemma_utf8_len_prefix(s: Seq<char>, k: int)
    requires
        0 <= k <= s.len(),
    ensures
        utf8_len(s.subrange(0, k)) <= utf8_len(s),
    decreases s.len() - k,
{
    if k < s.len() {
        lemma_utf8_len_prefix(s, k + 1);
        assert(s.subrange(0, k + 1).drop_last() =~= s.subrange(0, k));
    } else {
        assert(s.subrange(0, k) =~= s);
    }
}

/// `s` with every leading character satisfying `p` removed.
pub open spec fn strip_start(s: Seq<char>, p: spec_fn(char) -> bool) -> Seq<char>
    decreases s.len(),
{
    if s.len() > 0 && p(s[0]) {
        strip_start(s.drop_first(), p)
    } else {
        s
    }
}

/// `s` with every trailing character satisfying `p` removed.
pub open spec fn strip_end(s: Seq<char>, p: spec_fn(char) -> bool) -> Seq<char>
    decreases s.len(),
{
    if s.len() > 0 && p(s.last()) {
        strip_end(s.drop_last(), p)
    } else {
        s
    }
}

/// The NUL character.
pub open spec fn nul() -> spec_fn(char) -> bool {
    |c: char| c == '\0'
}

/// `str::trim`: leading and trailing whitespace removed.
pub open spec fn trim_ws(s: Seq<char>) -> Seq<char> {
    strip_end(strip_start(s, whitespace()), whitespace())
}

/// Index of the first character of `v[lo..]` that is not whitespace (or `v.len()`).
fn skip_ws_start(v: &[char], lo: usize) -> (i: usize)
    requires
        lo <= v@.len(),
    ensures
        lo <= i <= v@.len(),
        strip_start(v@.subrange(lo as int, v@.len() as int), whitespace()) == v@.subrange(i as int, v@.len() as int),
{
    let mut i = lo;
    while i < v.len() && char_is_whitespace(v[i])
        invariant
            lo <= i <= v@.len(),
            strip_start(v@.subrange(lo as int, v@.len() as int), whitespace()) == strip_start(v@.subrange(i as int, v@.len() as int), whitespace()),
        decreases v@.len() - i,
    {
        assert(v@.subrange(i as int, v@.len() as int).drop_first() =~= v@.subrange(i + 1, v@.len() as int));
        i += 1;
    }
    i
}

/// Characters `v[lo..hi]` with trailing whitespace removed: returns the new end.
fn skip_ws_end(v: &[char], lo: usize, hi: usize) -> (j: usize)
    requires
        lo <= hi <= v@.len(),
    ensures
        lo <= j <= hi,
        strip_end(v@.subrange(lo as int, hi as int), whitespace()) == v@.subrange(lo as int, j as int),
{
    let mut j = hi;
    while j > lo && char_is_whitespace(v[j - 1])
        invariant
            lo <= j <= hi,
            hi <= v@.len(),
            strip_end(v@.subrange(lo as int, hi as int), whitespace()) == strip_end(v@.subrange(lo as int, j as int), whitespace()),
        decreases j,
    {
        assert(v@.subrange(lo as int, j as int).drop_last() =~= v@.subrange(lo as int, j - 1));
        j -= 1;
    }
    j
}

/// `str::trim` on characters.
pub(crate) fn trim_chars(v: &[char]) -> (r: Vec<char>)
    ensures
        r@ == trim_ws(v@),
{
    let i = skip_ws_start(v, 0);
    assert(v@.subrange(0, v@.len() as int) =~= v@);
    let j = skip_ws_end(v, i, v.len());
    let r = vstd::slice::slice_to_vec(vstd::slice::slice_subrange(v, i, j));
    r
}


/// Class of characters kept when a name is cleaned.
pub enum Keep {
    /// Characters of a PDF title: alphanumeric, `_`, space, `-`.
    Title,
    /// Characters of readable text: alphanumeric, whitespace, `.`, `_`, `-`.
    Text,
    /// Characters other than `:`.
    NotColon,
}

/// Whether class `k` keeps `c`.
pub open spec fn keeps(k: Keep, c: char) -> bool {
    match k {
        Keep::Title => is_alphanumeric_of(c) || c == '_' || c == ' ' || c == '-',
        Keep::Text => is_alphanumeric_of(c) || is_whitespace_of(c) || c == '.' || c == '_' || c == '-',
        Keep::NotColon => c != ':',
    }
}

/// The characters of `s` that class `k` keeps, in order.
pub open spec fn keep_chars(s: Seq<char>, k: Keep) -> Seq<char>
    decreases s.len(),
{
    if s.len() == 0 {
        s
    } else if keeps(k, s.last()) {
        keep_chars(s.drop_last(), k).push(s.last())
    } else {
        keep_chars(s.drop_last(), k)
    }
}

fn keeps_exec(k: &Keep, c: char) -> (r: bool)
    ensures
        r == keeps(*k, c),
{
    match k {
        Keep::Title => char_is_alphanumeric(c) || c == '_' || c == ' ' || c == '-',
        Keep::Text => char_is_alphanumeric(c) || char_is_whitespace(c) || c == '.' || c == '_' || c == '-',
        Keep::NotColon => c != ':',
    }
}

/// The characters of `v` that class `k` keeps.
fn keep_exec(v: &[char], k: Keep) -> (r: Vec<char>)
    ensures
        r@ == keep_chars(v@, k),
{
    let mut r: Vec<char> = Vec::new();
    let mut i: usize = 0;
    while i < v.len()
        invariant
            i <= v@.len(),
            r@ == keep_chars(v@.subrange(0, i as int), k),
        decreases v@.len() - i,
    {
        assert(v@.subrange(0, i + 1).drop_last() =~= v@.subrange(0, i as int));
        if keeps_exec(&k, v[i]) {
            r.push(v[i]);
        }
        i += 1;
    }
    assert(v@.subrange(0, v@.len() as int) =~= v@);
    r
}

/// `s` with each character that is whitespace (when `ws`) or equal to `a`
/// or `b` replaced by `to`.
pub open spec fn replace_chars(s: Seq<char>, ws: bool, a: char, b: char, to: char) -> Seq<char> {
    Seq::new(s.len(), |i: int| if (ws && is_whitespace_of(s[i])) || s[i] == a || s[i] == b { to } else { s[i] })
}

fn replace_exec(v: &[char], ws: bool, a: char, b: char, to: char) -> (r: Vec<char>)
    ensures
        r@ == replace_chars(v@, ws, a, b, to),
{
    let mut r: Vec<char> = Vec::new();
    let mut i: usize = 0;
    while i < v.len()
        invariant
            i <= v@.len(),
            r@ == replace_chars(v@, ws, a, b, to).subrange(0, i as int),
        decreases v@.len() - i,
    {
        let c = v[i];
        let hit = (ws && char_is_whitespace(c)) || c == a || c == b;
        if hit {
            r.push(to);
        } else {
            r.push(c);
        }
        assert(r@ =~= replace_chars(v@, ws, a, b, to).subrange(0, i + 1));
        i += 1;
    }
    r
}

/// `s` with NUL characters removed at both ends (`trim_matches('\0')`).
pub open spec fn trim_nul(s: Seq<char>) -> Seq<char> {
    strip_end(strip_start(s, nul()), nul())
}

fn trim_nul_exec(v: &[char]) -> (r: Vec<char>)
    ensures
        r@ == trim_nul(v@),
{
    let mut i: usize = 0;
    assert(v@.subrange(0, v@.len() as int) =~= v@);
    while i < v.len() && v[i] == '\0'
        invariant
            i <= v@.len(),
            strip_start(v@, nul()) == strip_start(v@.subrange(i as int, v@.len() as int), nul()),
        decreases v@.len() - i,
    {
        assert(v@.subrange(i as int, v@.len() as int).drop_first() =~= v@.subrange(i + 1, v@.len() as int));
        i += 1;
    }
    let mut j: usize = v.len();
    while j > i && v[j - 1] == '\0'
        invariant
            i <= j <= v@.len(),
            strip_end(v@.subrange(i as int, v@.len() as int), nul()) == strip_end(v@.subrange(i as int, j as int), nul()),
        decreases j,
    {
        assert(v@.subrange(i as int, j as int).drop_last() =~= v@.subrange(i as int, j - 1));
        j -= 1;
    }
    vstd::slice::slice_to_vec(vstd::slice::slice_subrange(v, i, j))
}

/// `pat` occurs in `s` at `k`.
pub open spec fn run_at(s: Seq<char>, pat: Seq<char>) -> spec_fn(int) -> bool {
    |k: int| 0 <= k && k + pat.len() <= s.len() && s.subrange(k, k + pat.len()) == pat
}

/// First index where `pat` occurs in `s` (`str::find`, counted in characters).
pub open spec fn find_seq(s: Seq<char>, pat: Seq<char>) -> Option<int> {
    crate::bytes::first_match(run_at(s, pat), 0, s.len() as int)
}

pub(crate) fn find_exec(v: &[char], pat: &[char]) -> (r: Option<usize>)
    ensures
        r matches Some(k) ==> find_seq(v@, pat@) == Some(k as int),
        r is None ==> find_seq(v@, pat@) is None,
{
    let n = v.len();
    let mut k: usize = 0;
    while k < n
        invariant
            k <= n,
            n == v@.len(),
            find_seq(v@, pat@) == crate::bytes::first_match(run_at(v@, pat@), k as int, n as int),
        decreases n - k,
    {
        if pat.len() <= n - k {
            let mut j: usize = 0;
            let mut same = true;
            assert(v@.subrange(k as int, k as int) =~= pat@.subrange(0, 0));
            while j < pat.len()
                invariant
                    j <= pat@.len(),
                    k + pat@.len() <= n,
                    n == v@.len(),
                    same == (v@.subrange(k as int, k + j) == pat@.subrange(0, j as int)),
                decreases pat@.len() - j,
            {
                if v[k + j] != pat[j] {
                    same = false;
                }
                proof {
                    if same {
                        assert(v@.subrange(k as int, k + j + 1) =~= pat@.subrange(0, j + 1));
                    } else {
                        assert(!(v@.subrange(k as int, k + j + 1) =~= pat@.subrange(0, j + 1))) by {
                            if v[k + j as int] != pat@[j as int] {
                                assert(v@.subrange(k as int, k + j + 1)[j as int] != pat@.subrange(0, j + 1)[j as int]);
                            } else {
                                assert(v@.subrange(k as int, k + j) != pat@.subrange(0, j as int));
                                if v@.subrange(k as int, k + j + 1) =~= pat@.subrange(0, j + 1) {
                                    assert(v@.subrange(k as int, k + j) =~= v@.subrange(k as int, k + j + 1).subrange(0, j as int));
                                    assert(pat@.subrange(0, j as int) =~= pat@.subrange(0, j + 1).subrange(0, j as int));
                                }
                            }
                        }
                    }
                }
                j += 1;
            }
            assert(pat@.subrange(0, pat@.len() as int) =~= pat@);
            if same {
                return Some(k);
            }
        }
        k += 1;
    }
    None
}

/// Copy of `v[lo..hi]`.
fn sub_chars(v: &[char], lo: usize, hi: usize) -> (r: Vec<char>)
    requires
        lo <= hi <= v@.len(),
    ensures
        r@ == v@.subrange(lo as int, hi as int),
{
    vstd::slice::slice_to_vec(vstd::slice::slice_subrange(v, lo, hi))
}

// ---------------------------------------------------------------- readable text

/// A name made of readable text at the start of data: the text characters of
/// its first 100 bytes (when they are UTF-8), trimmed, of 4 to 49 bytes, with
/// whitespace turned into `_`.
pub open spec fn spec_text_name(d: Seq<u8>) -> Option<Seq<char>> {
    if d.len() > 100 && valid_utf8(d.subrange(0, 100)) {
        let t = trim_ws(keep_chars(decode_utf8(d.subrange(0, 100)), Keep::Text));
        if 3 < utf8_len(t) < 50 {
            Some(replace_chars(t, true, ' ', ' ', '_'))
        } else {
            None
        }
    } else {
        None
    }
}

fn text_name(data: &[u8]) -> (r: Option<String>)
    ensures
        match spec_text_name(data@) {
            Some(n) => r matches Some(s) && s@ == n,
            None => r is None,
        },
{
    if data.len() <= 100 {
        return None;
    }
    let head = vstd::slice::slice_subrange(data, 0, 100);
    match utf8_str(head) {
        Some(text) => {
            let chars = to_chars(text);
            let kept = keep_exec(&chars, Keep::Text);
            let t = trim_chars(&kept);
            let n = utf8_len_capped(&t, 50);
            if n > 3 && n < 50 {
                let named = replace_exec(&t, true, ' ', ' ', '_');
                Some(from_chars(&named))
            } else {
                None
            }
        },
        None => None,
    }
}

// ---------------------------------------------------------------- ZIP

/// The name in a ZIP local file header at `i` (`PK`, name length at 26, name
/// at 30): valid UTF-8, trailing NULs removed, non-empty, without `/`, of 4
/// to 99 bytes.
pub open spec fn zip_name_at(d: Seq<u8>, i: int) -> Option<Seq<char>> {
    let start = i + 30;
    let end = start + le_u16(d, i + 26);
    if 0 <= i && d[i] == 0x50 && d[i + 1] == 0x4B && i + 30 < d.len() && end <= d.len()
        && valid_utf8(d.subrange(start, end)) {
        let clean = strip_end(decode_utf8(d.subrange(start, end)), nul());
        if clean.len() > 0 && !clean.contains('/') && 3 < utf8_len(clean) < 100 {
            Some(clean)
        } else {
            None
        }
    } else {
        None
    }
}

/// A ZIP header with a usable name at `i`.
pub open spec fn zip_hit(d: Seq<u8>) -> spec_fn(int) -> bool {
    |i: int| zip_name_at(d, i) is Some
}

/// Where the search for ZIP headers stops: 1000, or 30 before the end.
pub open spec fn zip_search_end(len: int) -> int {
    if len - 30 < 1000 {
        len - 30
    } else {
        1000
    }
}

/// The name of the first ZIP local header with a usable name, for data of more than 50 bytes.
pub open spec fn spec_zip_name(d: Seq<u8>) -> Option<Seq<char>> {
    if d.len() > 50 {
        match crate::bytes::first_match(zip_hit(d), 0, zip_search_end(d.len() as int)) {
            Some(i) => zip_name_at(d, i),
            None => None,
        }
    } else {
        None
    }
}

fn contains_char(v: &[char], c: char) -> (r: bool)
    ensures
        r == v@.contains(c),
{
    let mut i: usize = 0;
    while i < v.len()
        invariant
            i <= v@.len(),
            forall|k: int| 0 <= k < i ==> v@[k] != c,
        decreases v@.len() - i,
    {
        if v[i] == c {
            assert(v@[i as int] == c);
            return true;
        }
        i += 1;
    }
    false
}

fn zip_name_exec(data: &[u8], i: usize) -> (r: Option<String>)
    requires
        i + 30 < data@.len(),
    ensures
        match zip_name_at(data@, i as int) {
            Some(n) => r matches Some(s) && s@ == n,
            None => r is None,
        },
{
    if !(data[i] == 0x50 && data[i + 1] == 0x4B) {
        return None;
    }
    let name_len = read_le_u16(data, i + 26) as usize;
    let start = i + 30;
    if name_len > data.len() - start {
        return None;
    }
    let end = start + name_len;
    match utf8_str(vstd::slice::slice_subrange(data, start, end)) {
        Some(text) => {
            let chars = to_chars(text);
            let mut j = chars.len();
            assert(chars@.subrange(0, j as int) =~= chars@);
            while j > 0 && chars[j - 1] == '\0'
                invariant
                    j <= chars@.len(),
                    strip_end(chars@, nul()) == strip_end(chars@.subrange(0, j as int), nul()),
                decreases j,
            {
                assert(chars@.subrange(0, j as int).drop_last() =~= chars@.subrange(0, j - 1));
                j -= 1;
            }
            let clean = sub_chars(&chars, 0, j);
            if clean.len() == 0 || contains_char(&clean, '/') {
                return None;
            }
            let n = utf8_len_capped(&clean, 100);
            if n > 3 && n < 100 {
                Some(from_chars(&clean))
            } else {
                None
            }
        },
        None => None,
    }
}

fn zip_name(data: &[u8]) -> (r: Option<String>)
    ensures
        match spec_zip_name(data@) {
            Some(n) => r matches Some(s) && s@ == n,
            None => r is None,
        },
{
    if data.len() <= 50 {
        return None;
    }
    let hi = if data.len() - 30 < 1000 {
        data.len() - 30
    } else {
        1000
    };
    let mut i: usize = 0;
    while i < hi
        invariant
            i <= hi,
            hi == zip_search_end(data@.len() as int),
            data@.len() > 50,
            crate::bytes::first_match(zip_hit(data@), 0, hi as int) == crate::bytes::first_match(zip_hit(data@), i as int, hi as int),
        decreases hi - i,
    {
        match zip_name_exec(data, i) {
            Some(name) => {
                return Some(name);
            },
            None => {},
        }
        i += 1;
    }
    None
}

// ---------------------------------------------------------------- PDF

/// The `/Title` key.
pub open spec fn title_key() -> Seq<char> {
    seq!['/', 'T', 'i', 't', 'l', 'e']
}

/// A name from a PDF's `/Title (...)` in its first 4096 bytes (read
/// leniently as UTF-8): title characters kept, trimmed, non-empty, spaces
/// turned into `_`, and `.pdf` added.
pub open spec fn spec_pdf_name(d: Seq<u8>) -> Option<Seq<char>> {
    if d.len() < 8 {
        None
    } else {
        spec_title_name(utf8_lossy_of(d.subrange(0, if d.len() < 4096 { d.len() as int } else { 4096 })))
    }
}

/// A name from the `/Title (...)` in the text `s` of a PDF: title characters
/// kept, trimmed, non-empty, spaces turned into `_`, and `.pdf` added.
pub open spec fn spec_title_name(s: Seq<char>) -> Option<Seq<char>> {
    {
        match find_seq(s, title_key()) {
            Some(k) => {
                let after = s.subrange(k + 6, s.len() as int);
                match find_seq(after, seq!['(']) {
                    Some(p) => {
                        let rest = after.subrange(p + 1, after.len() as int);
                        match find_seq(rest, seq![')']) {
                            Some(q) => {
                                let clean = trim_ws(keep_chars(rest.subrange(0, q), Keep::Title));
                                if clean.len() > 0 {
                                    Some(replace_chars(clean, false, ' ', ' ', '_') + seq!['.', 'p', 'd', 'f'])
                                } else {
                                    None
                                }
                            },
                            None => None,
                        }
                    },
                    None => None,
                }
            },
            None => None,
        }
    }
}

/// `v` followed by `tail`.
fn concat_chars(v: &[char], tail: &[char]) -> (r: Vec<char>)
    ensures
        r@ == v@ + tail@,
{
    let mut r = vstd::slice::slice_to_vec(v);
    let mut i: usize = 0;
    while i < tail.len()
        invariant
            i <= tail@.len(),
            r@ == v@ + tail@.subrange(0, i as int),
        decreases tail@.len() - i,
    {
        r.push(tail[i]);
        i += 1;
    }
    assert(tail@.subrange(0, tail@.len() as int) =~= tail@);
    r
}

fn pdf_name(data: &[u8]) -> (r: Option<String>)
    ensures
        match spec_pdf_name(data@) {
            Some(n) => r matches Some(s) && s@ == n,
            None => r is None,
        },
{
    if data.len() < 8 {
        return None;
    }
    let limit = if data.len() < 4096 {
        data.len()
    } else {
        4096
    };
    let text = utf8_lossy(vstd::slice::slice_subrange(data, 0, limit));
    pdf_title_name(text.as_str())
}

/// A name from the `/Title (...)` in the text of a PDF (see [`spec_title_name`]).
pub fn pdf_title_name(text: &str) -> (r: Option<String>)
    ensures
        match spec_title_name(text@) {
            Some(n) => r matches Some(s) && s@ == n,
            None => r is None,
        },
{
    let s = to_chars(text);
    let key: [char; 6] = ['/', 'T', 'i', 't', 'l', 'e'];
    assert(key@ == title_key());
    let s_len = s.len();
    let found = find_exec(&s, &key);
    if found.is_none() {
        return None;
    }
    let k = found.unwrap();
    proof {
        assert(find_seq(s@, key@) == Some(k as int));
        crate::bytes::lemma_first_match(run_at(s@, key@), 0, s@.len() as int);
        assert(key@.len() == 6);
        assert(run_at(s@, key@)(k as int));
    }
    let after = sub_chars(&s, k + 6, s_len);
    let open: [char; 1] = ['('];
    assert(open@ == seq!['(']);
    let p = match find_exec(&after, &open) {
        Some(p) => p,
        None => {
            return None;
        },
    };
    proof {
        crate::bytes::lemma_first_match(run_at(after@, seq!['(']), 0, after@.len() as int);
    }
    let rest = sub_chars(&after, p + 1, after.len());
    let close: [char; 1] = [')'];
    assert(close@ == seq![')']);
    let q = match find_exec(&rest, &close) {
        Some(q) => q,
        None => {
            return None;
        },
    };
    proof {
        crate::bytes::lemma_first_match(run_at(rest@, seq![')']), 0, rest@.len() as int);
    }
    let title = sub_chars(&rest, 0, q);
    let kept = keep_exec(&title, Keep::Title);
    let clean = trim_chars(&kept);
    if clean.len() == 0 {
        return None;
    }
    let named = replace_exec(&clean, false, ' ', ' ', '_');
    let ext: [char; 4] = ['.', 'p', 'd', 'f'];
    let full = concat_chars(&named, &ext);
    assert(ext@ == seq!['.', 'p', 'd', 'f']);
    Some(from_chars(&full))
}


// ---------------------------------------------------------------- JPEG

/// Characters of an EXIF date: numeric, `:` or space.
pub open spec fn date_chars(s: Seq<char>) -> bool {
    forall|k: int| 0 <= k < s.len() ==> is_numeric_of(#[trigger] s[k]) || s[k] == ':' || s[k] == ' '
}

/// An EXIF date `YYYY:MM:DD HH:MM:SS` at `i`: a year starting with 1 or 2,
/// colons at 4 and 7, a space at 10, and 19 characters of date.
pub open spec fn jpeg_date_at(d: Seq<u8>) -> spec_fn(int) -> bool {
    |i: int|
        0x31 <= d[i] <= 0x32 && d[i + 4] == 0x3A && d[i + 7] == 0x3A && d[i + 10] == 0x20
            && date_chars(utf8_lossy_of(d.subrange(i, i + 19)))
}

/// A name from the first EXIF date in the first 4096 positions of JPEG data
/// of at least 256 bytes: `IMG_`, the date without colons and with `_` for
/// the space, and `.jpg`.
pub open spec fn spec_jpeg_name(d: Seq<u8>) -> Option<Seq<char>> {
    if d.len() < 256 {
        None
    } else {
        match crate::bytes::first_match(jpeg_date_at(d), 0, if d.len() - 20 < 4096 { d.len() - 20 } else { 4096 }) {
            Some(i) => Some(spec_date_name(utf8_lossy_of(d.subrange(i, i + 19)))),
            None => None,
        }
    }
}

fn all_date_chars(v: &[char]) -> (r: bool)
    ensures
        r == date_chars(v@),
{
    let mut i: usize = 0;
    while i < v.len()
        invariant
            i <= v@.len(),
            forall|k: int| 0 <= k < i ==> is_numeric_of(#[trigger] v@[k]) || v@[k] == ':' || v@[k] == ' ',
        decreases v@.len() - i,
    {
        let c = v[i];
        if !(char_is_numeric(c) || c == ':' || c == ' ') {
            return false;
        }
        i += 1;
    }
    true
}

/// The name made of an EXIF date: `IMG_`, the date without colons and with
/// `_` for spaces, and `.jpg`.
pub open spec fn spec_date_name(s: Seq<char>) -> Seq<char> {
    seq!['I', 'M', 'G', '_'] + replace_chars(keep_chars(s, Keep::NotColon), false, ' ', ' ', '_') + seq!['.', 'j', 'p', 'g']
}

/// The name made of the text of an EXIF date, when it holds only digits,
/// colons and spaces (see [`spec_date_name`]).
pub fn date_file_name(date: &str) -> (r: Option<String>)
    ensures
        date_chars(date@) ==> (r matches Some(s) && s@ == spec_date_name(date@)),
        !date_chars(date@) ==> r is None,
{
    let chars = to_chars(date);
    if !all_date_chars(&chars) {
        return None;
    }
    let kept = keep_exec(&chars, Keep::NotColon);
    let named = replace_exec(&kept, false, ' ', ' ', '_');
    let head: [char; 4] = ['I', 'M', 'G', '_'];
    let ext: [char; 4] = ['.', 'j', 'p', 'g'];
    let with_head = concat_chars(&head, &named);
    let full = concat_chars(&with_head, &ext);
    assert(head@ == seq!['I', 'M', 'G', '_']);
    assert(ext@ == seq!['.', 'j', 'p', 'g']);
    Some(from_chars(&full))
}

fn jpeg_name(data: &[u8]) -> (r: Option<String>)
    ensures
        match spec_jpeg_name(data@) {
            Some(n) => r matches Some(s) && s@ == n,
            None => r is None,
        },
{
    if data.len() < 256 {
        return None;
    }
    let hi = if data.len() - 20 < 4096 {
        data.len() - 20
    } else {
        4096
    };
    let mut i: usize = 0;
    while i < hi
        invariant
            i <= hi,
            data@.len() >= 256,
            hi == (if data@.len() - 20 < 4096 { data@.len() - 20 } else { 4096 }),
            crate::bytes::first_match(jpeg_date_at(data@), 0, hi as int) == crate::bytes::first_match(jpeg_date_at(data@), i as int, hi as int),
        decreases hi - i,
    {
        if data[i] >= 0x31 && data[i] <= 0x32 && data[i + 4] == 0x3A && data[i + 7] == 0x3A && data[i + 10] == 0x20 {
            let text = utf8_lossy(vstd::slice::slice_subrange(data, i, i + 19));
            match date_file_name(text.as_str()) {
                Some(name) => {
                    assert(jpeg_date_at(data@)(i as int));
                    return Some(name);
                },
                None => {},
            }
        }
        i += 1;
    }
    None
}

// ---------------------------------------------------------------- MP3

/// The `ID3` tag identifier.
pub open spec fn id3_magic() -> Seq<u8> {
    seq![0x49u8, 0x44u8, 0x33u8]
}

/// The `TIT2` (title) frame identifier.
pub open spec fn tit2() -> Seq<u8> {
    seq![0x54u8, 0x49u8, 0x54u8, 0x32u8]
}

/// Size of an ID3v2 tag: four 7-bit groups at bytes 6 to 9.
pub open spec fn id3_size(d: Seq<u8>) -> int {
    (d[6] % 128) * 2097152 + (d[7] % 128) * 16384 + (d[8] % 128) * 128 + d[9] % 128
}

/// Size of the frame at `i`: big-endian 32 bits after its identifier.
pub open spec fn frame_size(t: Seq<u8>, i: int) -> int {
    crate::bytes::be_u32(t, i + 4)
}

/// UTF-16 units of `c`, two bytes each (a final odd byte is ignored), little-endian or big-endian.
pub open spec fn utf16_units(c: Seq<u8>, big_endian: bool) -> Seq<u16> {
    Seq::new(c.len() / 2, |k: int| if big_endian {
        (c[2 * k] * 256 + c[2 * k + 1]) as u16
    } else {
        (c[2 * k] + c[2 * k + 1] * 256) as u16
    })
}

/// Text of the `TIT2` frame at `i`, by its encoding byte: 0 and 3 read
/// leniently as UTF-8, 1 UTF-16 little-endian, 2 UTF-16 big-endian. Other
/// encodings, and undecodable UTF-16, give none.
pub open spec fn id3_text(t: Seq<u8>, i: int) -> Option<Seq<char>> {
    let content = t.subrange(i + 11, i + 10 + frame_size(t, i));
    let enc = t[i + 10];
    if enc == 0 || enc == 3 {
        Some(utf8_lossy_of(content))
    } else if enc == 1 {
        utf16_decode_of(utf16_units(content, false))
    } else if enc == 2 {
        utf16_decode_of(utf16_units(content, true))
    } else {
        None
    }
}

/// A title cleaned for use: NULs, then whitespace, trimmed.
pub open spec fn clean_title(s: Seq<char>) -> Seq<char> {
    trim_ws(trim_nul(s))
}

/// A usable title: non-empty and under 100 bytes.
pub open spec fn usable_title(c: Seq<char>) -> bool {
    c.len() > 0 && utf8_len(c) < 100
}

/// The file name made of a title: `/` and `\` become `_`, and `.mp3` follows.
pub open spec fn title_file_name(c: Seq<char>) -> Seq<char> {
    replace_chars(c, false, '/', '\\', '_') + seq!['.', 'm', 'p', '3']
}

/// A `TIT2` frame that lies inside the tag starts at `i`.
pub open spec fn tit2_frame_at(t: Seq<u8>, i: int) -> bool {
    bytes_at(t, i, tit2()) && i + 10 + frame_size(t, i) <= t.len()
}

/// The title found by scanning the tag `t` from `i`: the first `TIT2` frame
/// whose text is usable.
pub open spec fn id3_walk(t: Seq<u8>, i: int) -> Option<Seq<char>>
    decreases t.len() - i,
{
    if !(0 <= i && i + 10 < t.len()) {
        None
    } else if tit2_frame_at(t, i) {
        match id3_text(t, i) {
            Some(s) => if usable_title(clean_title(s)) {
                Some(title_file_name(clean_title(s)))
            } else {
                id3_walk(t, i + 1)
            },
            None => None,
        }
    } else {
        id3_walk(t, i + 1)
    }
}

/// The scan from `i` ends: every `TIT2` frame met before a usable title has
/// a non-empty body (an empty one makes the slice bounds cross) and text that
/// decodes (else the scan retries the same position for ever).
pub open spec fn id3_walk_defined(t: Seq<u8>, i: int) -> bool
    decreases t.len() - i,
{
    if !(0 <= i && i + 10 < t.len()) {
        true
    } else if tit2_frame_at(t, i) {
        frame_size(t, i) >= 1 && match id3_text(t, i) {
            Some(s) => usable_title(clean_title(s)) || id3_walk_defined(t, i + 1),
            None => false,
        }
    } else {
        id3_walk_defined(t, i + 1)
    }
}

/// The ID3v2 tag of MP3 data: `ID3`, a non-zero size, and the whole tag inside the data.
pub open spec fn id3_tag(d: Seq<u8>) -> Option<Seq<u8>> {
    if d.len() >= 10 && bytes_at(d, 0, id3_magic()) && id3_size(d) > 0 && 10 + id3_size(d) <= d.len() {
        Some(d.subrange(10, 10 + id3_size(d)))
    } else {
        None
    }
}

/// A name from the title of MP3 data's ID3v2 tag.
pub open spec fn spec_mp3_name(d: Seq<u8>) -> Option<Seq<char>> {
    match id3_tag(d) {
        Some(t) => id3_walk(t, 0),
        None => None,
    }
}

fn utf16_units_exec(c: &[u8], big_endian: bool) -> (r: Vec<u16>)
    ensures
        r@ == utf16_units(c@, big_endian),
{
    let n = c.len() / 2;
    let mut r: Vec<u16> = Vec::new();
    let mut k: usize = 0;
    while k < n
        invariant
            k <= n,
            n == c@.len() / 2,
            n == c.len() / 2,
            r@ == utf16_units(c@, big_endian).subrange(0, k as int),
        decreases n - k,
    {
        let a = c[2 * k] as u16;
        let b = c[2 * k + 1] as u16;
        let u: u16 = if big_endian {
            a * 256 + b
        } else {
            a + b * 256
        };
        r.push(u);
        assert(r@ =~= utf16_units(c@, big_endian).subrange(0, k + 1));
        k += 1;
    }
    assert(r@ =~= utf16_units(c@, big_endian));
    r
}

fn id3_text_exec(t: &[u8], i: usize, end: usize) -> (r: Option<String>)
    requires
        i + 10 < end <= t@.len(),
        end == i + 10 + frame_size(t@, i as int),
    ensures
        match id3_text(t@, i as int) {
            Some(s) => r matches Some(v) && v@ == s,
            None => r is None,
        },
{
    let content = vstd::slice::slice_subrange(t, i + 11, end);
    let enc = t[i + 10];
    if enc == 0 || enc == 3 {
        Some(utf8_lossy(content))
    } else if enc == 1 || enc == 2 {
        let units = utf16_units_exec(content, enc == 2);
        from_utf16(&units)
    } else {
        None
    }
}

/// The file name made of the text of an ID3 title, when it is usable once
/// cleaned (see [`usable_title`] and [`title_file_name`]).
pub fn mp3_title_name(text: &str) -> (r: Option<String>)
    ensures
        usable_title(clean_title(text@)) ==> (r matches Some(s) && s@ == title_file_name(clean_title(text@))),
        !usable_title(clean_title(text@)) ==> r is None,
{
    let chars = to_chars(text);
    let trimmed = trim_nul_exec(&chars);
    let clean = trim_chars(&trimmed);
    let n = utf8_len_capped(&clean, 100);
    if clean.len() > 0 && n < 100 {
        let named = replace_exec(&clean, false, '/', '\\', '_');
        let ext: [char; 4] = ['.', 'm', 'p', '3'];
        assert(ext@ == seq!['.', 'm', 'p', '3']);
        let full = concat_chars(&named, &ext);
        Some(from_chars(&full))
    } else {
        None
    }
}

fn id3_title(t: &[u8]) -> (r: Option<String>)
    requires
        id3_walk_defined(t@, 0),
    ensures
        match id3_walk(t@, 0) {
            Some(n) => r matches Some(s) && s@ == n,
            None => r is None,
        },
{
    let len = t.len();
    let magic: [u8; 4] = [0x54, 0x49, 0x54, 0x32];
    assert(magic@ == tit2());
    let mut i: usize = 0;
    while len > 10 && i < len - 10
        invariant
            len == t@.len(),
            magic@ == tit2(),
            id3_walk_defined(t@, i as int),
            id3_walk(t@, 0) == id3_walk(t@, i as int),
        decreases len - i,
    {
        if bytes_at_exec(t, i, &magic) {
            let size = crate::bytes::read_be_u32(t, i + 4);
            if size <= (len - i - 10) as u64 {
                let end = i + 10 + size as usize;
                assert(tit2_frame_at(t@, i as int));
                match id3_text_exec(t, i, end) {
                    Some(text) => {
                        match mp3_title_name(text.as_str()) {
                            Some(name) => {
                                return Some(name);
                            },
                            None => {},
                        }
                    },
                    None => {
                        return None;
                    },
                }
            }
        }
        i += 1;
    }
    None
}

fn mp3_name(data: &[u8]) -> (r: Option<String>)
    requires
        id3_tag(data@) matches Some(t) ==> id3_walk_defined(t, 0),
    ensures
        match spec_mp3_name(data@) {
            Some(n) => r matches Some(s) && s@ == n,
            None => r is None,
        },
{
    if data.len() < 10 {
        return None;
    }
    let magic: [u8; 3] = [0x49, 0x44, 0x33];
    assert(magic@ == id3_magic());
    if !bytes_at_exec(data, 0, &magic) {
        return None;
    }
    let size = ((data[6] % 128) as u64) * 2097152 + ((data[7] % 128) as u64) * 16384 + ((data[8] % 128) as u64) * 128
        + (data[9] % 128) as u64;
    if size == 0 || size > (data.len() - 10) as u64 {
        return None;
    }
    let end = 10 + size as usize;
    let tag = vstd::slice::slice_subrange(data, 10, end);
    id3_title(tag)
}

// ---------------------------------------------------------------- all types

/// Inputs on which name extraction terminates without panicking: only the
/// title scan of an MP3's ID3v2 tag can fail (see [`id3_walk_defined`]).
pub open spec fn extraction_defined(d: Seq<u8>, t: FileType) -> bool {
    t == FileType::Mp3 ==> (id3_tag(d) matches Some(tag) ==> id3_walk_defined(tag, 0))
}

/// The name recovered from data `d` of type `t`, if any: from a ZIP local
/// header for ZIP and Office files, the title of a PDF, the EXIF date of a
/// JPEG, the ID3v2 title of an MP3, and readable text otherwise.
pub open spec fn spec_extracted_name(d: Seq<u8>, t: FileType) -> Option<Seq<char>> {
    match t {
        FileType::Zip | FileType::Docx | FileType::Xlsx | FileType::Pptx => spec_zip_name(d),
        FileType::Pdf => spec_pdf_name(d),
        FileType::Jpeg => spec_jpeg_name(d),
        FileType::Mp3 => spec_mp3_name(d),
        _ => spec_text_name(d),
    }
}

/// Recovers a file name from metadata in `data`, a file of type `t`.
pub fn extract_filename_from_data(data: &[u8], t: FileType) -> (r: Option<String>)
    requires
        extraction_defined(data@, t),
    ensures
        match spec_extracted_name(data@, t) {
            Some(n) => r is Some && r->0@ == n,
            None => r is None,
        },
{
    match t {
        FileType::Zip | FileType::Docx | FileType::Xlsx | FileType::Pptx => zip_name(data),
        FileType::Pdf => pdf_name(data),
        FileType::Jpeg => jpeg_name(data),
        FileType::Mp3 => mp3_name(data),
        _ => text_name(data),
    }
}


/// Whether the title scan of tag `t` from the start ends (see [`id3_walk_defined`]).
fn id3_walk_safe(t: &[u8]) -> (r: bool)
    ensures
        r == id3_walk_defined(t@, 0),
{
    let len = t.len();
    let magic: [u8; 4] = [0x54, 0x49, 0x54, 0x32];
    assert(magic@ == tit2());
    let mut i: usize = 0;
    while len > 10 && i < len - 10
        invariant
            len == t@.len(),
            magic@ == tit2(),
            id3_walk_defined(t@, 0) == id3_walk_defined(t@, i as int),
        decreases len - i,
    {
        if bytes_at_exec(t, i, &magic) {
            let size = crate::bytes::read_be_u32(t, i + 4);
            if size <= (len - i - 10) as u64 {
                assert(tit2_frame_at(t@, i as int));
                if size == 0 {
                    return false;
                }
                let end = i + 10 + size as usize;
                match id3_text_exec(t, i, end) {
                    Some(text) => {
                        if mp3_title_name(text.as_str()).is_some() {
                            return true;
                        }
                    },
                    None => {
                        return false;
                    },
                }
            }
        }
        i += 1;
    }
    true
}

/// Whether name extraction terminates without panicking on `d`, whatever
/// the file type (only MP3 data can fail, through its ID3v2 title scan).
pub fn name_extraction_safe(d: &[u8]) -> (r: bool)
    ensures
        r == (forall|t: FileType| #[trigger] extraction_defined(d@, t)),
{
    let ok = if d.len() < 10 {
        true
    } else {
        let magic: [u8; 3] = [0x49, 0x44, 0x33];
        assert(magic@ == id3_magic());
        if !bytes_at_exec(d, 0, &magic) {
            true
        } else {
            let size = ((d[6] % 128) as u64) * 2097152 + ((d[7] % 128) as u64) * 16384 + ((d[8] % 128) as u64) * 128
                + (d[9] % 128) as u64;
            if size == 0 || size > (d.len() - 10) as u64 {
                true
            } else {
                let end = 10 + size as usize;
                id3_walk_safe(vstd::slice::slice_subrange(d, 10, end))
            }
        }
    };
    assert(ok == (id3_tag(d@) matches Some(tag) ==> id3_walk_defined(tag, 0)));
    assert(ok == extraction_defined(d@, FileType::Mp3));
    ok
}


/// The `DateTime=` key of EXIF text.
pub open spec fn datetime_key() -> Seq<char> {
    seq!['D', 'a', 't', 'e', 'T', 'i', 'm', 'e', '=']
}

/// A name from the `DateTime=` value (up to a NUL) in an APP1 section of more
/// than 100 bytes whose bytes after the sixth are UTF-8: `IMG_`, the date
/// without colons and with `_` for spaces, and `.jpg`.
pub open spec fn spec_exif_name(section: Seq<u8>) -> Option<Seq<char>> {
    if section.len() > 100 && valid_utf8(section.subrange(6, section.len() as int)) {
        let s = decode_utf8(section.subrange(6, section.len() as int));
        match find_seq(s, datetime_key()) {
            Some(k) => {
                let date = s.subrange(k + 9, s.len() as int);
                match find_seq(date, seq!['\0']) {
                    Some(e) => Some(seq!['I', 'M', 'G', '_'] + replace_chars(
                        keep_chars(date.subrange(0, e), Keep::NotColon),
                        false,
                        ' ',
                        ' ',
                        '_',
                    ) + seq!['.', 'j', 'p', 'g']),
                    None => None,
                }
            },
            None => None,
        }
    } else {
        None
    }
}

/// A name from the EXIF date of a JPEG APP1 section (see [`spec_exif_name`]).
pub fn extract_exif_metadata(section: &[u8]) -> (r: Option<String>)
    ensures
        match spec_exif_name(section@) {
            Some(n) => r matches Some(s) && s@ == n,
            None => r is None,
        },
{
    if section.len() <= 100 {
        return None;
    }
    let text = match utf8_str(vstd::slice::slice_subrange(section, 6, section.len())) {
        Some(t) => t,
        None => {
            return None;
        },
    };
    let s = to_chars(text);
    let s_len = s.len();
    let key: [char; 9] = ['D', 'a', 't', 'e', 'T', 'i', 'm', 'e', '='];
    assert(key@ == datetime_key());
    let found = find_exec(&s, &key);
    if found.is_none() {
        return None;
    }
    let k = found.unwrap();
    proof {
        assert(find_seq(s@, key@) == Some(k as int));
        crate::bytes::lemma_first_match(run_at(s@, key@), 0, s@.len() as int);
        assert(key@.len() == 9);
        assert(run_at(s@, key@)(k as int));
    }
    let date = sub_chars(&s, k + 9, s_len);
    let nul: [char; 1] = ['\0'];
    assert(nul@ == seq!['\0']);
    let end = match find_exec(&date, &nul) {
        Some(e) => e,
        None => {
            return None;
        },
    };
    proof {
        crate::bytes::lemma_first_match(run_at(date@, seq!['\0']), 0, date@.len() as int);
    }
    let value = sub_chars(&date, 0, end);
    let kept = keep_exec(&value, Keep::NotColon);
    let named = replace_exec(&kept, false, ' ', ' ', '_');
    let head: [char; 4] = ['I', 'M', 'G', '_'];
    let ext: [char; 4] = ['.', 'j', 'p', 'g'];
    let with_head = concat_chars(&head, &named);
    let full = concat_chars(&with_head, &ext);
    assert(head@ == seq!['I', 'M', 'G', '_']);
    assert(ext@ == seq!['.', 'j', 'p', 'g']);
    Some(from_chars(&full))
}

} // verus!
