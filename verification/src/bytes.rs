//! Byte-level helpers: pattern tests, integer reads and ordered searches.

use vstd::prelude::*;

verus! {

/// `pat` occurs in `data` starting at index `i`.
pub open spec fn bytes_at(data: Seq<u8>, i: int, pat: Seq<u8>) -> bool {
    &&& 0 <= i
    &&& i + pat.len() <= data.len()
    &&& data.subrange(i, i + pat.len()) == pat
}

/// Little-endian 16-bit value stored at `data[i..i + 2]`.
pub open spec fn le_u16(data: Seq<u8>, i: int) -> int {
    data[i] + 256 * data[i + 1]
}

/// Little-endian 32-bit value stored at `data[i..i + 4]`.
pub open spec fn le_u32(data: Seq<u8>, i: int) -> int {
    data[i] + 256 * data[i + 1] + 65536 * data[i + 2] + 16777216 * data[i + 3]
}

/// Big-endian 32-bit value stored at `data[i..i + 4]`.
pub open spec fn be_u32(data: Seq<u8>, i: int) -> int {
    16777216 * data[i] + 65536 * data[i + 1] + 256 * data[i + 2] + data[i + 3]
}

/// Little-endian 64-bit value stored at `data[i..i + 8]`.
pub open spec fn le_u64(data: Seq<u8>, i: int) -> int {
    le_u32(data, i) + 4294967296 * le_u32(data, i + 4)
}

/// The greatest index `k` in `[lo, hi)` with `p(k)`, if any.
pub open spec fn last_match(p: spec_fn(int) -> bool, lo: int, hi: int) -> Option<int>
    decreases hi - lo,
{
    if hi <= lo {
        None
    } else if p(hi - 1) {
        Some(hi - 1)
    } else {
        last_match(p, lo, hi - 1)
    }
}

/// The least index `k` in `[lo, hi)` with `p(k)`, if any.
pub open spec fn first_match(p: spec_fn(int) -> bool, lo: int, hi: int) -> Option<int>
    decreases hi - lo,
{
    if hi <= lo {
        None
    } else if p(lo) {
        Some(lo)
    } else {
        first_match(p, lo + 1, hi)
    }
}

/// `p` holds somewhere in `[lo, hi)`.
pub open spec fn any_in(p: spec_fn(int) -> bool, lo: int, hi: int) -> bool {
    exists|k: int| lo <= k < hi && #[trigger] p(k)
}

/// What `last_match` returns.
pub proof fn lemma_last_match(p: spec_fn(int) -> bool, lo: int, hi: int)
    ensures
        match last_match(p, lo, hi) {
            Some(k) => lo <= k < hi && p(k) && forall|j: int| k < j < hi ==> !#[trigger] p(j),
            None => forall|j: int| lo <= j < hi ==> !#[trigger] p(j),
        },
    decreases hi - lo,
{
    if hi > lo && !p(hi - 1) {
        lemma_last_match(p, lo, hi - 1);
    }
}

/// What `first_match` returns.
pub proof fn lemma_first_match(p: spec_fn(int) -> bool, lo: int, hi: int)
    ensures
        match first_match(p, lo, hi) {
            Some(k) => lo <= k < hi && p(k) && forall|j: int| lo <= j < k ==> !#[trigger] p(j),
            None => forall|j: int| lo <= j < hi ==> !#[trigger] p(j),
        },
        (first_match(p, lo, hi) is Some) == any_in(p, lo, hi),
    decreases hi - lo,
{
    if hi > lo && !p(lo) {
        lemma_first_match(p, lo + 1, hi);
    }
}

/// Tests whether `pat` occurs in `data` at index `i`.
pub fn bytes_at_exec(data: &[u8], i: usize, pat: &[u8]) -> (r: bool)
    ensures
        r == bytes_at(data@, i as int, pat@),
{
    if i > data.len() || pat.len() > data.len() - i {
        return false;
    }
    let mut j: usize = 0;
    while j < pat.len()
        invariant
            i + pat@.len() <= data.len(),
            j <= pat@.len(),
            forall|k: int| 0 <= k < j ==> data@[i + k] == pat@[k],
        decreases pat@.len() - j,
    {
        if data[i + j] != pat[j] {
            assert(data@.subrange(i as int, i + pat@.len())[j as int] != pat@[j as int]);
            return false;
        }
        j += 1;
    }
    assert(data@.subrange(i as int, i + pat@.len()) =~= pat@);
    true
}

/// Reads the little-endian 16-bit value at `data[i..i + 2]`.
pub fn read_le_u16(data: &[u8], i: usize) -> (r: u64)
    requires
        i + 2 <= data.len(),
    ensures
        r == le_u16(data@, i as int),
{
    data[i] as u64 + 256 * (data[i + 1] as u64)
}

/// Reads the little-endian 32-bit value at `data[i..i + 4]`.
pub fn read_le_u32(data: &[u8], i: usize) -> (r: u64)
    requires
        i + 4 <= data.len(),
    ensures
        r == le_u32(data@, i as int),
        r < 4294967296,
{
    data[i] as u64 + 256 * (data[i + 1] as u64) + 65536 * (data[i + 2] as u64) + 16777216 * (
    data[i + 3] as u64)
}

/// Reads the big-endian 32-bit value at `data[i..i + 4]`.
pub fn read_be_u32(data: &[u8], i: usize) -> (r: u64)
    requires
        i + 4 <= data.len(),
    ensures
        r == be_u32(data@, i as int),
        r < 4294967296,
{
    16777216 * (data[i] as u64) + 65536 * (data[i + 1] as u64) + 256 * (data[i + 2] as u64) + (
    data[i + 3] as u64)
}

/// Reads the little-endian 64-bit value at `data[i..i + 8]`.
pub fn read_le_u64(data: &[u8], i: usize) -> (r: u64)
    requires
        i + 8 <= data.len(),
    ensures
        r == le_u64(data@, i as int),
{
    let lo = read_le_u32(data, i);
    let hi = read_le_u32(data, i + 4);
    assert(4294967296 * hi <= 4294967296 * 4294967295) by (nonlinear_arith)
        requires
            hi < 4294967296,
    ;
    lo + 4294967296 * hi
}

} // verus!

verus! {

/// `pat` occurs in `d` at `i + rel`.
pub open spec fn pattern_at(d: Seq<u8>, pat: Seq<u8>, rel: int) -> spec_fn(int) -> bool {
    |i: int| bytes_at(d, i + rel, pat)
}

/// Whether `pat` occurs at `i + rel` for some `i` in `[lo, hi)`.
pub fn contains_pattern(data: &[u8], pat: &[u8], rel: usize, lo: usize, hi: usize) -> (r: bool)
    ensures
        r == any_in(pattern_at(data@, pat@, rel as int), lo as int, hi as int),
{
    let mut i = lo;
    while i < hi
        invariant
            lo <= i,
            forall|k: int| lo <= k < i ==> !#[trigger] pattern_at(data@, pat@, rel as int)(k),
        decreases hi - i,
    {
        if rel <= usize::MAX - i && bytes_at_exec(data, i + rel, pat) {
            assert(lo <= i < hi && pattern_at(data@, pat@, rel as int)(i as int));
            return true;
        }
        proof {
            if i + rel > usize::MAX {
                assert(data@.len() == data.len());
                assert(!bytes_at(data@, i + rel, pat@));
            }
        }
        i += 1;
    }
    false
}

} // verus!
