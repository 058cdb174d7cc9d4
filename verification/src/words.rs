//! Reading command output: lines, whitespace-separated words, decimal
//! numbers and substring tests, over character sequences.

use vstd::prelude::*;
use crate::bytes::first_match;
use crate::text::{char_is_whitespace, is_whitespace_of};

verus! {

/// `c` stands at `i` of `s`.
pub open spec fn is_char_at(s: Seq<char>, c: char) -> spec_fn(int) -> bool {
    |i: int| s[i] == c
}

/// A whitespace character stands at `i` of `s`.
pub open spec fn ws_at(s: Seq<char>) -> spec_fn(int) -> bool {
    |i: int| is_whitespace_of(s[i])
}

/// A non-whitespace character stands at `i` of `s`.
pub open spec fn non_ws_at(s: Seq<char>) -> spec_fn(int) -> bool {
    |i: int| !is_whitespace_of(s[i])
}

/// `l` without one final carriage return.
pub open spec fn strip_cr(l: Seq<char>) -> Seq<char> {
    if l.len() > 0 && l.last() == '\r' {
        l.drop_last()
    } else {
        l
    }
}

/// The lines of `s` from `i` on, as `str::lines` gives them: split after
/// each `\n`, which is removed with a `\r` before it; no empty line follows
/// a final `\n`.
pub open spec fn lines_from(s: Seq<char>, i: int) -> Seq<Seq<char>>
    decreases s.len() - i,
{
    if i < 0 || i >= s.len() {
        Seq::empty()
    } else {
        match first_match(is_char_at(s, '\n'), i, s.len() as int) {
            Some(k) => {
                proof {
                    crate::bytes::lemma_first_match(is_char_at(s, '\n'), i, s.len() as int);
                }
                seq![strip_cr(s.subrange(i, k))] + lines_from(s, k + 1)
            },
            None => seq![s.subrange(i, s.len() as int)],
        }
    }
}

/// The lines of `s`.
pub open spec fn lines_of(s: Seq<char>) -> Seq<Seq<char>> {
    lines_from(s, 0)
}

/// The whitespace-separated words of `s` from `i` on (`str::split_whitespace`).
pub open spec fn words_from(s: Seq<char>, i: int) -> Seq<Seq<char>>
    decreases s.len() - i,
{
    if i < 0 || i >= s.len() {
        Seq::empty()
    } else {
        match first_match(non_ws_at(s), i, s.len() as int) {
            None => Seq::empty(),
            Some(j) => {
                let e = match first_match(ws_at(s), j, s.len() as int) {
                    Some(k) => k,
                    None => s.len() as int,
                };
                proof {
                    crate::bytes::lemma_first_match(non_ws_at(s), i, s.len() as int);
                    crate::bytes::lemma_first_match(ws_at(s), j, s.len() as int);
                    assert(e > j) by {
                        if first_match(ws_at(s), j, s.len() as int) == Some(j) {
                            assert(non_ws_at(s)(j));
                        }
                    }
                }
                seq![s.subrange(j, e)] + words_from(s, e)
            },
        }
    }
}

/// The whitespace-separated words of `s`.
pub open spec fn words_of(s: Seq<char>) -> Seq<Seq<char>> {
    words_from(s, 0)
}

/// Index of the first `c` in `v[lo..hi]`, or `hi`.
fn find_from(v: &[char], c: char, lo: usize, hi: usize) -> (k: usize)
    requires
        lo <= hi <= v@.len(),
    ensures
        lo <= k <= hi,
        match first_match(is_char_at(v@, c), lo as int, hi as int) {
            Some(j) => k == j,
            None => k == hi,
        },
{
    let mut k = lo;
    while k < hi && v[k] != c
        invariant
            lo <= k <= hi,
            hi <= v@.len(),
            first_match(is_char_at(v@, c), lo as int, hi as int) == first_match(is_char_at(v@, c), k as int, hi as int),
        decreases hi - k,
    {
        k += 1;
    }
    k
}

/// Index of the first character of `v[lo..]` that is (when `ws`) or is not
/// whitespace, or `v.len()`.
fn find_ws(v: &[char], lo: usize, ws: bool) -> (k: usize)
    requires
        lo <= v@.len(),
    ensures
        lo <= k <= v@.len(),
        ws ==> match first_match(ws_at(v@), lo as int, v@.len() as int) {
            Some(j) => k == j,
            None => k == v@.len(),
        },
        !ws ==> match first_match(non_ws_at(v@), lo as int, v@.len() as int) {
            Some(j) => k == j,
            None => k == v@.len(),
        },
{
    let n = v.len();
    let mut k = lo;
    while k < n && char_is_whitespace(v[k]) != ws
        invariant
            lo <= k <= n,
            n == v@.len(),
            ws ==> first_match(ws_at(v@), lo as int, n as int) == first_match(ws_at(v@), k as int, n as int),
            !ws ==> first_match(non_ws_at(v@), lo as int, n as int) == first_match(non_ws_at(v@), k as int, n as int),
        decreases n - k,
    {
        k += 1;
    }
    k
}

/// The lines of `v` (see [`lines_of`]).
pub fn lines(v: &[char]) -> (r: Vec<Vec<char>>)
    ensures
        r@.map_values(|l: Vec<char>| l@) == lines_of(v@),
{
    let n = v.len();
    let mut r: Vec<Vec<char>> = Vec::new();
    let mut i: usize = 0;
    while i < n
        invariant
            i <= n,
            n == v@.len(),
            r@.map_values(|l: Vec<char>| l@) + lines_from(v@, i as int) == lines_of(v@),
        decreases n - i,
    {
        let k = find_from(v, '\n', i, n);
        proof {
            crate::bytes::lemma_first_match(is_char_at(v@, '\n'), i as int, n as int);
        }
        let ghost before = r@.map_values(|l: Vec<char>| l@);
        if k < n {
            let mut line = vstd::slice::slice_to_vec(vstd::slice::slice_subrange(v, i, k));
            if line.len() > 0 && line[line.len() - 1] == '\r' {
                line.pop();
            }
            proof {
                assert(line@ == strip_cr(v@.subrange(i as int, k as int)));
            }
            r.push(line);
            assert(r@.map_values(|l: Vec<char>| l@) =~= before.push(strip_cr(v@.subrange(i as int, k as int))));
            assert(lines_from(v@, i as int) == seq![strip_cr(v@.subrange(i as int, k as int))] + lines_from(v@, k + 1));
            assert(before + lines_from(v@, i as int) =~= before.push(strip_cr(v@.subrange(i as int, k as int))) + lines_from(v@, k + 1));
            i = k + 1;
        } else {
            let line = vstd::slice::slice_to_vec(vstd::slice::slice_subrange(v, i, n));
            r.push(line);
            assert(r@.map_values(|l: Vec<char>| l@) =~= before.push(v@.subrange(i as int, n as int)));
            assert(lines_from(v@, n as int) =~= Seq::<Seq<char>>::empty());
            assert(before + lines_from(v@, i as int) =~= before.push(v@.subrange(i as int, n as int)) + lines_from(v@, n as int));
            i = n;
        }
    }
    assert(lines_from(v@, n as int) =~= Seq::<Seq<char>>::empty());
    assert(r@.map_values(|l: Vec<char>| l@) =~= r@.map_values(|l: Vec<char>| l@) + lines_from(v@, n as int));
    r
}

/// The whitespace-separated words of `v` (see [`words_of`]).
pub fn words(v: &[char]) -> (r: Vec<Vec<char>>)
    ensures
        r@.map_values(|l: Vec<char>| l@) == words_of(v@),
{
    let n = v.len();
    let mut r: Vec<Vec<char>> = Vec::new();
    let mut i: usize = 0;
    while i < n
        invariant
            i <= n,
            n == v@.len(),
            r@.map_values(|l: Vec<char>| l@) + words_from(v@, i as int) == words_of(v@),
        decreases n - i,
    {
        let ghost before = r@.map_values(|l: Vec<char>| l@);
        let j = find_ws(v, i, false);
        proof {
            crate::bytes::lemma_first_match(non_ws_at(v@), i as int, n as int);
        }
        if j == n {
            assert(words_from(v@, i as int) =~= Seq::<Seq<char>>::empty());
            assert(before + words_from(v@, i as int) =~= before + words_from(v@, n as int));
            i = n;
        } else {
            let e = find_ws(v, j, true);
            proof {
                crate::bytes::lemma_first_match(ws_at(v@), j as int, n as int);
            }
            let word = vstd::slice::slice_to_vec(vstd::slice::slice_subrange(v, j, e));
            r.push(word);
            assert(r@.map_values(|l: Vec<char>| l@) =~= before.push(v@.subrange(j as int, e as int)));
            assert(words_from(v@, i as int) == seq![v@.subrange(j as int, e as int)] + words_from(v@, e as int));
            assert(before + words_from(v@, i as int) =~= before.push(v@.subrange(j as int, e as int)) + words_from(v@, e as int));
            i = e;
        }
    }
    assert(words_from(v@, n as int) =~= Seq::<Seq<char>>::empty());
    assert(r@.map_values(|l: Vec<char>| l@) =~= r@.map_values(|l: Vec<char>| l@) + words_from(v@, n as int));
    r
}

/// Value of the decimal digits `s[lo..hi]`.
pub open spec fn digits_value(s: Seq<char>, hi: int) -> int
    decreases hi,
{
    if hi <= 0 {
        0
    } else {
        digits_value(s, hi - 1) * 10 + (s[hi - 1] as u32 - 48)
    }
}

/// Every character of `s` is an ASCII digit.
pub open spec fn all_digits(s: Seq<char>) -> bool {
    forall|k: int| 0 <= k < s.len() ==> '0' <= #[trigger] s[k] <= '9'
}

/// `str::parse::<u64>`: an optional `+`, then at least one ASCII digit and
/// nothing else, for a value that fits in 64 bits.
pub open spec fn spec_parse_u64(s: Seq<char>) -> Option<u64> {
    let d = if s.len() > 0 && s[0] == '+' {
        s.drop_first()
    } else {
        s
    };
    if d.len() > 0 && all_digits(d) && digits_value(d, d.len() as int) <= u64::MAX {
        Some(digits_value(d, d.len() as int) as u64)
    } else {
        None
    }
}

/// Parses a decimal `u64` (see [`spec_parse_u64`]).
pub fn parse_u64(v: &[char]) -> (r: Option<u64>)
    ensures
        r == spec_parse_u64(v@),
{
    let start: usize = if v.len() > 0 && v[0] == '+' {
        1
    } else {
        0
    };
    let ghost d = if v@.len() > 0 && v@[0] == '+' {
        v@.drop_first()
    } else {
        v@
    };
    assert(d =~= v@.subrange(start as int, v@.len() as int));
    if start == v.len() {
        return None;
    }
    let mut value: u64 = 0;
    let mut i = start;
    while i < v.len()
        invariant
            start <= i <= v@.len(),
            d == v@.subrange(start as int, v@.len() as int),
            d == (if v@.len() > 0 && v@[0] == '+' { v@.drop_first() } else { v@ }),
            forall|k: int| start <= k < i ==> '0' <= #[trigger] v@[k] <= '9',
            value == digits_value(d, i - start),
        decreases v@.len() - i,
    {
        let c = v[i];
        if !('0' <= c && c <= '9') {
            assert(!all_digits(d)) by {
                assert(d[i - start] == c);
            }
            assert(spec_parse_u64(v@) is None);
            return None;
        }
        let digit = (c as u32 - 48) as u64;
        if value > (u64::MAX - digit) / 10 {
            proof {
                assert(d[i - start] == c);
                assert(digits_value(d, i - start + 1) == value * 10 + digit);
                assert(value * 10 + digit > u64::MAX) by (nonlinear_arith)
                    requires
                        value > (u64::MAX - digit) / 10,
                        digit <= 9,
                ;
                if all_digits(d) {
                    lemma_digits_monotone(d, i - start + 1, d.len() as int);
                }
                assert(spec_parse_u64(v@) is None);
            }
            return None;
        }
        value = value * 10 + digit;
        i += 1;
    }
    assert(all_digits(d)) by {
        assert forall|k: int| 0 <= k < d.len() implies '0' <= #[trigger] d[k] <= '9' by {
            assert(d[k] == v@[start + k]);
        }
    }
    Some(value)
}

/// Longer runs of digits have larger values.
pub proof fn lemma_digits_monotone(d: Seq<char>, a: int, b: int)
    requires
        0 <= a <= b <= d.len(),
        forall|k: int| 0 <= k < b ==> '0' <= #[trigger] d[k] <= '9',
    ensures
        digits_value(d, a) <= digits_value(d, b),
    decreases b - a,
{
    if a < b {
        assert('0' <= d[b - 1] <= '9');
        lemma_digits_nonneg(d, b - 1);
        lemma_digits_monotone(d, a, b - 1);
    }
}

/// Values of digit runs are not negative.
pub proof fn lemma_digits_nonneg(d: Seq<char>, b: int)
    requires
        0 <= b <= d.len(),
        forall|k: int| 0 <= k < b ==> '0' <= #[trigger] d[k] <= '9',
    ensures
        digits_value(d, b) >= 0,
    decreases b,
{
    if b > 0 {
        lemma_digits_nonneg(d, b - 1);
    }
}

} // verus!
