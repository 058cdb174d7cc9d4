//! Signature scanning of raw disk data: per-sector detection, carving helpers
//! and the decisions of the chunk-by-chunk scan loop. Reading the disk and
//! computing entropies happen outside; the scan loop here is a state machine
//! that is told what each read returned.

use vstd::prelude::*;
use crate::bytes::{bytes_at, first_match, last_match, be_u32, read_be_u32};
use crate::classifier::{spec_guess_type, spec_is_valid, spec_predict, classification_is, AIClassifier};
use crate::entropy::{ENTROPY_0_1, ENTROPY_2_0, ENTROPY_4_0, ENTROPY_5_0, ENTROPY_6_0, ENTROPY_7_8, ENTROPY_7_9, ENTROPY_WINDOW};
use crate::names::{extract_filename_from_data, extraction_defined, spec_extracted_name};
use crate::signatures::{
    estimate_size_defined, is_mp3_magic, lemma_signature_facts, signature_count, signature_database,
    signature_matches, spec_estimate_size, spec_extension_upper, spec_signature,
    spec_signature_database, FileSignature, FileType, SignatureSpec,
};
use crate::text::{hex_digit_upper, push_decimal, push_str, push_char, spec_decimal};

verus! {

/// Sector size: the scan examines data sector by sector.
pub const SECTOR_SIZE: usize = 512;

/// Bytes read per step of the scan loop.
pub const SCAN_CHUNK_SIZE: u64 = 1048576;

/// Abstract view of a [`FoundFile`].
pub struct FoundFileView {
    pub offset: u64,
    pub file_type: FileType,
    pub file_name: Seq<char>,
    pub estimated_size: u64,
    pub recoverability: u32,
    pub entropy: u64,
    pub signature_matched: Seq<char>,
    pub selected: bool,
}

/// A file found during a scan.
pub struct FoundFile {
    /// Offset on the disk where the file starts.
    pub offset: u64,
    pub file_type: FileType,
    pub file_name: String,
    pub estimated_size: u64,
    /// Recoverability in tenths of a percent (0 to 1000).
    pub recoverability: u32,
    /// Encoding of the entropy of the data where the file was found (see [`crate::entropy`]).
    pub entropy: u64,
    pub signature_matched: String,
    /// Whether the user selected the file for recovery.
    pub selected: bool,
}

impl View for FoundFile {
    type V = FoundFileView;

    open spec fn view(&self) -> FoundFileView {
        FoundFileView {
            offset: self.offset,
            file_type: self.file_type,
            file_name: self.file_name@,
            estimated_size: self.estimated_size,
            recoverability: self.recoverability,
            entropy: self.entropy,
            signature_matched: self.signature_matched@,
            selected: self.selected,
        }
    }
}

/// Views of a sequence of found files.
pub open spec fn views(v: Seq<FoundFile>) -> Seq<FoundFileView> {
    v.map_values(|f: FoundFile| f@)
}

impl FoundFile {
    /// A copy of this entry.
    pub fn duplicate(&self) -> (r: FoundFile)
        ensures
            r@ == self@,
    {
        FoundFile {
            offset: self.offset,
            file_type: self.file_type,
            file_name: self.file_name.clone(),
            estimated_size: self.estimated_size,
            recoverability: self.recoverability,
            entropy: self.entropy,
            signature_matched: self.signature_matched.clone(),
            selected: self.selected,
        }
    }
}

/// Two upper-case hexadecimal digits of a byte.
pub open spec fn spec_hex_pair(b: u8) -> Seq<char> {
    seq![hex_digit_upper((b / 16) as nat), hex_digit_upper((b % 16) as nat)]
}

/// Bytes as comma-separated hexadecimal pairs.
pub open spec fn spec_hex_items(b: Seq<u8>) -> Seq<char>
    decreases b.len(),
{
    if b.len() == 0 {
        Seq::empty()
    } else if b.len() == 1 {
        spec_hex_pair(b[0])
    } else {
        spec_hex_items(b.drop_last()) + ", "@ + spec_hex_pair(b.last())
    }
}

/// At most the first four bytes of `magic`.
pub open spec fn magic_head(magic: Seq<u8>) -> Seq<u8> {
    if magic.len() > 4 {
        magic.subrange(0, 4)
    } else {
        magic
    }
}

/// How a matched signature is reported: the first (at most four) magic bytes
/// as a bracketed list of hexadecimal pairs, e.g. `[FF, D8, FF]`.
pub open spec fn spec_signature_label(magic: Seq<u8>) -> Seq<char> {
    "["@ + spec_hex_items(magic_head(magic)) + "]"@
}

/// Name given to a found file without a recovered name: upper-case extension,
/// `_`, and the offset in whole MiB.
pub open spec fn spec_default_name(t: FileType, offset: u64) -> Seq<char> {
    spec_extension_upper(t) + "_"@ + spec_decimal((offset / 1048576) as nat)
}

fn hex_digit_exec(d: u8) -> (c: char)
    requires
        d < 16,
    ensures
        c == hex_digit_upper(d as nat),
{
    if d < 10 {
        (d + 48) as char
    } else {
        (d + 55) as char
    }
}

/// The label reporting which magic bytes matched.
pub fn signature_label(magic: &[u8]) -> (s: String)
    ensures
        s@ == spec_signature_label(magic@),
{
    let mut s = String::new();
    push_str(&mut s, "[");
    let n = if magic.len() > 4 {
        4
    } else {
        magic.len()
    };
    let mut i: usize = 0;
    while i < n
        invariant
            i <= n,
            n == magic_head(magic@).len(),
            n <= magic@.len(),
            s@ == "["@ + spec_hex_items(magic@.subrange(0, i as int)),
        decreases n - i,
    {
        let ghost before = s@;
        if i > 0 {
            push_str(&mut s, ", ");
        }
        let b = magic[i];
        push_char(&mut s, hex_digit_exec(b / 16));
        push_char(&mut s, hex_digit_exec(b % 16));
        proof {
            let sub = magic@.subrange(0, i + 1);
            assert(sub.drop_last() =~= magic@.subrange(0, i as int));
            assert(sub.last() == b);
            if i == 0 {
                assert(s@ =~= "["@ + spec_hex_items(sub));
            } else {
                assert(s@ =~= "["@ + spec_hex_items(sub));
            }
        }
        i += 1;
    }
    assert(magic@.subrange(0, n as int) =~= magic_head(magic@));
    push_str(&mut s, "]");
    s
}

/// The default name of a found file.
pub fn default_file_name(t: FileType, offset: u64) -> (s: String)
    ensures
        s@ == spec_default_name(t, offset),
{
    let mut s = String::new();
    push_str(&mut s, t.extension_upper());
    push_str(&mut s, "_");
    push_decimal(&mut s, offset / 1048576);
    assert(s@ =~= spec_default_name(t, offset));
    s
}

/// Whether type `t` passes the optional filter of enabled types.
pub open spec fn type_enabled(enabled: Option<Seq<FileType>>, t: FileType) -> bool {
    match enabled {
        None => true,
        Some(ts) => ts.contains(t),
    }
}

/// View of an optional list of enabled types.
pub open spec fn enabled_view(enabled: Option<Vec<FileType>>) -> Option<Seq<FileType>> {
    match enabled {
        None => None,
        Some(v) => Some(v@),
    }
}

/// Whether type `t` passes the optional filter of enabled types.
pub fn is_type_enabled(enabled: &Option<Vec<FileType>>, t: FileType) -> (r: bool)
    ensures
        r == type_enabled(enabled_view(*enabled), t),
{
    match enabled {
        None => true,
        Some(types) => {
            let mut i: usize = 0;
            while i < types.len()
                invariant
                    i <= types@.len(),
                    enabled_view(*enabled) == Some(types@),
                    forall|k: int| 0 <= k < i ==> types@[k] != t,
                decreases types@.len() - i,
            {
                if types[i] == t {
                    assert(types@[i as int] == t);
                    assert(types@.contains(t));
                    return true;
                }
                i += 1;
            }
            false
        },
    }
}

/// Probability (tenths) that the classifier predicts for data `d` with entropy encoding `e`.
pub open spec fn spec_classified_probability(d: Seq<u8>, e: u64) -> int {
    let t = spec_guess_type(d, e).0;
    spec_predict(d, t, e, spec_is_valid(d, t)).probability
}

/// Signature `k` of the database is a hit for a sector: non-empty magic,
/// enabled type, matching bytes, and the sector is not (nearly) empty.
pub open spec fn sector_candidate(w: Seq<u8>, enabled: Option<Seq<FileType>>, e: u64) -> spec_fn(
    int,
) -> bool {
    |k: int|
        spec_signature(k).magic.len() > 0 && type_enabled(enabled, spec_signature(k).file_type)
            && signature_matches(spec_signature(k), w) && !(e < ENTROPY_0_1)
}

/// The database index of the signature found in a sector, if any.
pub open spec fn spec_sector_hit(w: Seq<u8>, enabled: Option<Seq<FileType>>, e: u64) -> Option<int> {
    first_match(sector_candidate(w, enabled, e), 0, signature_count() as int)
}

/// The file reported for a sector `w` at disk offset `offset`, entropy encoding `e`,
/// matched by signature `k`.
pub open spec fn spec_sector_file(w: Seq<u8>, offset: u64, k: int, e: u64) -> FoundFileView {
    let s = spec_signature(k);
    let p = spec_classified_probability(w, e);
    let boosted = if s.magic.len() >= 4 {
        p + 200
    } else {
        p
    };
    FoundFileView {
        offset,
        file_type: s.file_type,
        file_name: match spec_extracted_name(w, s.file_type) {
            Some(n) => n,
            None => spec_default_name(s.file_type, offset),
        },
        estimated_size: match spec_estimate_size(s.file_type, w) {
            Some(z) => z,
            None => 0,
        },
        recoverability: (if boosted > 1000 {
            1000
        } else {
            boosted
        }) as u32,
        entropy: e,
        signature_matched: spec_signature_label(s.magic),
        selected: true,
    }
}

/// Sectors on which the search terminates without panicking: a two-byte
/// sector holding an enabled MPEG frame sync makes the size estimate's range
/// bound underflow.
pub open spec fn sector_search_defined(w: Seq<u8>, enabled: Option<Seq<FileType>>) -> bool {
    &&& w.len() == 2 && type_enabled(enabled, FileType::Mp3) ==> !(w[0] == 0xFF && (w[1] == 0xFB
        || w[1] == 0xF3 || w[1] == 0xF2))
    &&& forall|t: FileType| #[trigger] extraction_defined(w, t)
}

/// The file found in a sector, if any.
pub open spec fn spec_find_in_sector(
    w: Seq<u8>,
    offset: u64,
    enabled: Option<Seq<FileType>>,
    e: u64,
) -> Option<FoundFileView> {
    match spec_sector_hit(w, enabled, e) {
        Some(k) => Some(spec_sector_file(w, offset, k, e)),
        None => None,
    }
}

/// Looks for a known signature at the start of a sector (at most 2048 bytes)
/// found at disk offset `offset`; `entropy` is the encoding of the sector's entropy.
pub fn find_signature_in_sector(
    window: &[u8],
    offset: u64,
    enabled_types: &Option<Vec<FileType>>,
    ai_classifier: &AIClassifier,
    entropy: u64,
) -> (r: Option<FoundFile>)
    requires
        window@.len() <= ENTROPY_WINDOW,
        sector_search_defined(window@, enabled_view(*enabled_types)),
    ensures
        match spec_find_in_sector(window@, offset, enabled_view(*enabled_types), entropy) {
            Some(f) => r is Some && r->0@ == f,
            None => r is None,
        },
{
    let db = signature_database();
    let n = db.len();
    let mut i: usize = 0;
    while i < n
        invariant
            n == db@.len(),
            n == signature_count(),
            i <= n,
            window@.len() <= ENTROPY_WINDOW,
            sector_search_defined(window@, enabled_view(*enabled_types)),
            forall|k: int| 0 <= k < n ==> #[trigger] db@[k]@ == spec_signature_database()[k],
            spec_sector_hit(window@, enabled_view(*enabled_types), entropy) == first_match(
                sector_candidate(window@, enabled_view(*enabled_types), entropy),
                i as int,
                n as int,
            ),
        decreases n - i,
    {
        let sig = &db[i];
        assert(sig@ == spec_signature(i as int));
        if sig.magic_bytes.len() == 0 {
            i += 1;
            continue;
        }
        if !is_type_enabled(enabled_types, sig.file_type) {
            i += 1;
            continue;
        }
        if sig.matches(window) {
            if entropy < ENTROPY_0_1 {
                i += 1;
                continue;
            }
            proof {
                lemma_signature_facts(i as int);
                let sp = spec_signature(i as int);
                assert(window@.subrange(sp.offset as int, (sp.offset + sp.magic.len()) as int) == sp.magic);
                if sp.file_type == FileType::Mp3 {
                    assert(window@[0] == window@.subrange(0, 2)[0]);
                    assert(window@[1] == window@.subrange(0, 2)[1]);
                    assert(type_enabled(enabled_view(*enabled_types), FileType::Mp3));
                    assert(window@.len() >= 3);
                } else {
                    assert(estimate_size_defined(sp.file_type, (sp.offset + sp.magic.len()) as int));
                    assert(window@.len() >= sp.offset + sp.magic.len());
                }
                assert(estimate_size_defined(sig.file_type, window@.len() as int));
            }
            let classification = ai_classifier.classify(window, entropy);
            let mut recoverability = classification.recovery_prediction.probability;
            if sig.magic_bytes.len() >= 4 {
                recoverability = if recoverability + 200 > 1000 {
                    1000
                } else {
                    recoverability + 200
                };
            }
            let estimated_size = match sig.estimate_size(window) {
                Some(z) => z,
                None => 0,
            };
            let file_name = match extract_filename_from_data(window, sig.file_type) {
                Some(name) => name,
                None => default_file_name(sig.file_type, offset),
            };
            let signature_matched = signature_label(sig.magic_bytes.as_slice());
            return Some(
                FoundFile {
                    offset,
                    file_type: sig.file_type,
                    file_name,
                    estimated_size,
                    recoverability,
                    entropy,
                    signature_matched,
                    selected: true,
                },
            );
        }
        i += 1;
    }
    None
}

/// Number of sampled positions (every 1024th byte, `n` samples) holding `00` or `FF`.
pub open spec fn blank_samples(d: Seq<u8>, n: nat) -> nat
    decreases n,
{
    if n == 0 {
        0
    } else {
        blank_samples(d, (n - 1) as nat) + if d[1024 * (n - 1)] == 0 || d[1024 * (n - 1)] == 0xFF {
            1nat
        } else {
            0nat
        }
    }
}

/// A chunk of at least 4 KiB is blank when more than 80% of its bytes sampled
/// every 1 KiB are `00` or `FF`; smaller chunks never are.
pub open spec fn spec_is_chunk_empty(d: Seq<u8>) -> bool {
    d.len() >= 4096 && blank_samples(d, d.len() / 1024) > (d.len() / 1024) * 80 / 100
}

/// Whether a chunk looks blank (see [`spec_is_chunk_empty`]).
pub fn is_chunk_empty(data: &[u8]) -> (r: bool)
    ensures
        r == spec_is_chunk_empty(data@),
{
    if data.len() < 4096 {
        return false;
    }
    let samples = data.len() / 1024;
    let mut blank: usize = 0;
    let mut i: usize = 0;
    while i < samples
        invariant
            samples == data@.len() / 1024,
            i <= samples,
            blank <= i,
            blank == blank_samples(data@, i as nat),
        decreases samples - i,
    {
        assert(i * 1024 < data@.len()) by (nonlinear_arith)
            requires
                i < samples,
                samples == data@.len() / 1024,
        ;
        assert(data@.len() == data.len());
        let b = data[i * 1024];
        if b == 0 || b == 0xFF {
            blank += 1;
        }
        i += 1;
    }
    blank > samples * 80 / 100
}

/// Number of sectors of data of length `len`.
pub open spec fn sector_count(len: nat) -> nat {
    ((len + 511) / 512) as nat
}

/// Sector `k` of `d`.
pub open spec fn sector(d: Seq<u8>, k: int) -> Seq<u8> {
    d.subrange(512 * k, if 512 * k + 512 <= d.len() {
        512 * k + 512
    } else {
        d.len() as int
    })
}

/// Every sector of `d` can be searched without panicking.
pub open spec fn sectors_searchable(d: Seq<u8>, enabled: Option<Seq<FileType>>) -> bool {
    forall|k: int| 0 <= k < sector_count(d.len()) ==> #[trigger] sector_search_defined(sector(d, k), enabled)
}

/// The files found in the first `n` sectors of `d` (found at `base`), in sector order;
/// `ents[k]` is the entropy encoding of sector `k`.
pub open spec fn spec_deep_results(
    d: Seq<u8>,
    base: u64,
    enabled: Option<Seq<FileType>>,
    ents: Seq<u64>,
    n: nat,
) -> Seq<FoundFileView>
    decreases n,
{
    if n == 0 {
        Seq::empty()
    } else {
        let prev = spec_deep_results(d, base, enabled, ents, (n - 1) as nat);
        let w = sector(d, n - 1);
        if spec_is_chunk_empty(w) {
            prev
        } else {
            match spec_find_in_sector(w, (base + 512 * (n - 1)) as u64, enabled, ents[n - 1]) {
                Some(f) => prev.push(f),
                None => prev,
            }
        }
    }
}

/// Sector `k` starts inside data of length `len`.
pub proof fn lemma_sector_start(len: nat, k: nat)
    requires
        k < sector_count(len),
    ensures
        512 * k < len,
{
    assert(512 * k < len) by (nonlinear_arith)
        requires
            k < (len + 511) / 512,
    ;
}

/// Whether a sector can be searched without panicking (see [`sector_search_defined`]).
pub fn sector_search_safe(w: &[u8], enabled: &Option<Vec<FileType>>) -> (r: bool)
    ensures
        r == sector_search_defined(w@, enabled_view(*enabled)),
{
    let two_byte_sync = w.len() == 2 && is_type_enabled(enabled, FileType::Mp3) && w[0] == 0xFF && (w[1] == 0xFB
        || w[1] == 0xF3 || w[1] == 0xF2);
    if two_byte_sync {
        return false;
    }
    crate::names::name_extraction_safe(w)
}

/// Whether every sector of `data` can be searched without panicking (see [`sectors_searchable`]).
pub fn chunk_search_safe(data: &[u8], enabled: &Option<Vec<FileType>>) -> (r: bool)
    ensures
        r == sectors_searchable(data@, enabled_view(*enabled)),
{
    let n = (data.len() / 512) + if data.len() % 512 == 0 { 0 } else { 1 };
    assert(n == sector_count(data@.len() as nat));
    let mut k: usize = 0;
    while k < n
        invariant
            k <= n,
            n == sector_count(data@.len() as nat),
            forall|j: int| 0 <= j < k ==> #[trigger] sector_search_defined(sector(data@, j), enabled_view(*enabled)),
        decreases n - k,
    {
        let w = sector_slice(data, k);
        if !sector_search_safe(w, enabled) {
            return false;
        }
        k += 1;
    }
    true
}

/// Sector `k` of `data`.
fn sector_slice(data: &[u8], k: usize) -> (w: &[u8])
    requires
        k < sector_count(data@.len() as nat),
    ensures
        w@ == sector(data@, k as int),
        w@.len() <= 512,
{
    proof {
        lemma_sector_start(data@.len() as nat, k as nat);
    }
    assert(data@.len() == data.len());
    let start = k * 512;
    let end = if data.len() - start >= 512 {
        start + 512
    } else {
        data.len()
    };
    vstd::slice::slice_subrange(data, start, end)
}

/// A sector's hit starts inside the sector and has an estimated size below 2^34.
pub proof fn lemma_sector_file_bound(w: Seq<u8>, enabled: Option<Seq<FileType>>, e: u64, offset: u64)
    requires
        sector_search_defined(w, enabled),
        w.len() <= 512,
    ensures
        spec_find_in_sector(w, offset, enabled, e) matches Some(f) ==> f.estimated_size < 0x4_0000_0000 && f.offset == offset,
{
    crate::bytes::lemma_first_match(sector_candidate(w, enabled, e), 0, signature_count() as int);
    match spec_sector_hit(w, enabled, e) {
        Some(k) => {
            lemma_signature_facts(k);
            let sp = spec_signature(k);
            assert(w.subrange(sp.offset as int, (sp.offset + sp.magic.len()) as int) == sp.magic);
            if sp.file_type == FileType::Mp3 {
                assert(w[0] == w.subrange(0, 2)[0]);
                assert(w[1] == w.subrange(0, 2)[1]);
            }
            crate::signatures::lemma_estimate_size_bound(sp.file_type, w);
        },
        None => {},
    }
}

/// Every file found in the first `n` sectors has an estimated size below 2^34 and
/// starts at or after `base`.
pub proof fn lemma_deep_results_bound(
    d: Seq<u8>,
    base: u64,
    enabled: Option<Seq<FileType>>,
    ents: Seq<u64>,
    n: nat,
)
    requires
        n <= sector_count(d.len() as nat),
        sectors_searchable(d, enabled),
        base + d.len() <= u64::MAX,
    ensures
        forall|i: int| 0 <= i < spec_deep_results(d, base, enabled, ents, n).len() ==> #[trigger] spec_deep_results(d, base, enabled, ents, n)[i].estimated_size < 0x4_0000_0000,
    decreases n,
{
    if n > 0 {
        lemma_deep_results_bound(d, base, enabled, ents, (n - 1) as nat);
        let w = sector(d, n - 1);
        lemma_sector_start(d.len() as nat, (n - 1) as nat);
        assert(sector_search_defined(sector(d, n - 1), enabled));
        lemma_sector_file_bound(w, enabled, ents[n - 1], (base + 512 * (n - 1)) as u64);
    }
}

/// Searches every 512-byte sector of `data` (found at disk offset `base_offset`)
/// for a known signature; `sector_entropies[k]` is the entropy encoding of sector `k`.
pub fn search_signatures_deep(
    data: &[u8],
    base_offset: u64,
    enabled_types: &Option<Vec<FileType>>,
    ai_classifier: &AIClassifier,
    sector_entropies: &Vec<u64>,
) -> (r: Vec<FoundFile>)
    requires
        sector_entropies@.len() == sector_count(data@.len() as nat),
        base_offset + data@.len() <= u64::MAX,
        sectors_searchable(data@, enabled_view(*enabled_types)),
    ensures
        views(r@) == spec_deep_results(
            data@,
            base_offset,
            enabled_view(*enabled_types),
            sector_entropies@,
            sector_count(data@.len() as nat),
        ),
{
    let mut found: Vec<FoundFile> = Vec::new();
    let n = sector_entropies.len();
    let mut k: usize = 0;
    while k < n
        invariant
            n == sector_count(data@.len() as nat),
            n == sector_entropies@.len(),
            k <= n,
            base_offset + data@.len() <= u64::MAX,
            sectors_searchable(data@, enabled_view(*enabled_types)),
            views(found@) == spec_deep_results(
                data@,
                base_offset,
                enabled_view(*enabled_types),
                sector_entropies@,
                k as nat,
            ),
        decreases n - k,
    {
        let w = sector_slice(data, k);
        proof {
            lemma_sector_start(data@.len() as nat, k as nat);
        }
        assert(sector_search_defined(sector(data@, k as int), enabled_view(*enabled_types)));
        if !is_chunk_empty(w) {
            match find_signature_in_sector(
                w,
                base_offset + (k as u64) * 512,
                enabled_types,
                ai_classifier,
                sector_entropies[k],
            ) {
                Some(f) => {
                    found.push(f);
                },
                None => {},
            }
        }
        k += 1;
        assert(views(found@) =~= spec_deep_results(
            data@,
            base_offset,
            enabled_view(*enabled_types),
            sector_entropies@,
            k as nat,
        ));
    }
    found
}

/// `PK 05 06`, a ZIP end-of-central-directory signature, at index `i`.
pub open spec fn zip_eocd_sig_at(d: Seq<u8>) -> spec_fn(int) -> bool {
    |i: int| d[i] == 0x50 && d[i + 1] == 0x4B && d[i + 2] == 0x05 && d[i + 3] == 0x06
}

/// End of an MP4 file found by walking its boxes from index `i`: the end of the
/// first `mdat` box, or the data length when the walk fails or runs out.
pub open spec fn spec_mp4_end_from(d: Seq<u8>, i: int) -> int
    decreases d.len() - i,
{
    if 0 <= i && i + 8 < d.len() {
        let size = be_u32(d, i);
        if size == 0 || size > d.len() {
            d.len() as int
        } else if d[i + 4] == 0x6D && d[i + 5] == 0x64 && d[i + 6] == 0x61 && d[i + 7] == 0x74 {
            i + size
        } else if i + size < d.len() {
            spec_mp4_end_from(d, i + size)
        } else {
            d.len() as int
        }
    } else {
        d.len() as int
    }
}

/// Inputs on which the boundary search is defined (shorter ones make its range bound underflow).
pub open spec fn boundaries_defined(t: FileType, len: int) -> bool {
    match t {
        FileType::Jpeg | FileType::Gif => len >= 1,
        FileType::Pdf => len >= 4,
        _ => true,
    }
}

/// The end of a carved file of type `t` whose data starts with `d`: just past
/// the last end marker of its format, or the whole data when none is found.
pub open spec fn spec_file_boundaries(d: Seq<u8>, t: FileType) -> int {
    let len = d.len() as int;
    match t {
        FileType::Jpeg => match last_match(crate::signatures::jpeg_eoi_at(d), 2, len - 1) {
            Some(i) => i + 2,
            None => len,
        },
        FileType::Png => match last_match(crate::signatures::png_iend_at(d), 8, crate::signatures::sat_sub(len, 8)) {
            Some(i) => i + 8,
            None => len,
        },
        FileType::Gif => match last_match(crate::signatures::gif_trailer_at(d), 2, len - 1) {
            Some(i) => i + 2,
            None => len,
        },
        FileType::Pdf => match last_match(crate::signatures::pdf_eof_at(d), 5, len - 4) {
            Some(i) => i + 5,
            None => len,
        },
        FileType::Zip => if len >= 22 {
            match last_match(zip_eocd_sig_at(d), len - 22, len - 4) {
                Some(i) => i + 22,
                None => len,
            }
        } else {
            len
        },
        FileType::Mp4 => spec_mp4_end_from(d, 8),
        _ => len,
    }
}

/// End of an MP4 file, walking its boxes from offset 8.
pub fn find_mp4_end(data: &[u8]) -> (r: u64)
    requires
        data@.len() <= 0x7FFF_FFFF_FFFF_FFFF,
    ensures
        r == spec_mp4_end_from(data@, 8),
{
    let len = data.len();
    let mut i: usize = 8;
    while i < len && len - i > 8
        invariant
            len == data@.len(),
            len <= 0x7FFF_FFFF_FFFF_FFFF,
            8 <= i,
            spec_mp4_end_from(data@, 8) == spec_mp4_end_from(data@, i as int),
        decreases len - i,
    {
        let box_size = read_be_u32(data, i);
        if box_size == 0 || box_size > len as u64 {
            return len as u64;
        }
        if data[i + 4] == 0x6D && data[i + 5] == 0x64 && data[i + 6] == 0x61 && data[i + 7] == 0x74 {
            return i as u64 + box_size;
        }
        if box_size as usize >= len - i {
            return len as u64;
        }
        i = i + box_size as usize;
    }
    len as u64
}

/// End of a carved file of type `t` whose data starts with `data`.
pub fn find_file_boundaries(data: &[u8], t: FileType) -> (r: u64)
    requires
        boundaries_defined(t, data@.len() as int),
        data@.len() <= 0x7FFF_FFFF_FFFF_FFFF,
    ensures
        r == spec_file_boundaries(data@, t),
{
    let len = data.len();
    match t {
        FileType::Jpeg => {
            let hi = len - 1;
            let mut i = hi;
            while i > 2
                invariant
                    i <= hi,
                    t == FileType::Jpeg,
                    len == data@.len(),
                    hi == data@.len() - 1,
                    last_match(crate::signatures::jpeg_eoi_at(data@), 2, hi as int) == last_match(
                        crate::signatures::jpeg_eoi_at(data@),
                        2,
                        i as int,
                    ),
                decreases i,
            {
                i -= 1;
                if data[i] == 0xFF && data[i + 1] == 0xD9 {
                    return (i + 2) as u64;
                }
            }
            len as u64
        },
        FileType::Gif => {
            let hi = len - 1;
            let mut i = hi;
            while i > 2
                invariant
                    i <= hi,
                    t == FileType::Gif,
                    len == data@.len(),
                    hi == data@.len() - 1,
                    last_match(crate::signatures::gif_trailer_at(data@), 2, hi as int) == last_match(
                        crate::signatures::gif_trailer_at(data@),
                        2,
                        i as int,
                    ),
                decreases i,
            {
                i -= 1;
                if data[i] == 0x00 && data[i + 1] == 0x3B {
                    return (i + 2) as u64;
                }
            }
            len as u64
        },
        FileType::Png => {
            let hi = if len >= 8 {
                len - 8
            } else {
                0
            };
            let mut i = hi;
            while i > 8
                invariant
                    i <= hi,
                    t == FileType::Png,
                    len == data@.len(),
                    hi == crate::signatures::sat_sub(data@.len() as int, 8),
                    last_match(crate::signatures::png_iend_at(data@), 8, hi as int) == last_match(
                        crate::signatures::png_iend_at(data@),
                        8,
                        i as int,
                    ),
                decreases i,
            {
                i -= 1;
                if data[i] == 0x49 && data[i + 1] == 0x45 && data[i + 2] == 0x4E && data[i + 3] == 0x44
                    && data[i + 4] == 0xAE && data[i + 5] == 0x42 && data[i + 6] == 0x60 && data[i
                    + 7] == 0x82 {
                    return (i + 8) as u64;
                }
            }
            len as u64
        },
        FileType::Pdf => {
            let hi = len - 4;
            let mut i = hi;
            while i > 5
                invariant
                    i <= hi,
                    t == FileType::Pdf,
                    len == data@.len(),
                    hi == data@.len() - 4,
                    last_match(crate::signatures::pdf_eof_at(data@), 5, hi as int) == last_match(
                        crate::signatures::pdf_eof_at(data@),
                        5,
                        i as int,
                    ),
                decreases i,
            {
                i -= 1;
                if data[i] == 0x25 && data[i + 1] == 0x25 && data[i + 2] == 0x45 && data[i + 3] == 0x4F
                    && data[i + 4] == 0x46 {
                    return (i + 5) as u64;
                }
            }
            len as u64
        },
        FileType::Zip => {
            if len >= 22 {
                let lo = len - 22;
                let hi = len - 4;
                let mut i = hi;
                while i > lo
                    invariant
                        lo <= i <= hi,
                        t == FileType::Zip,
                        len == data@.len(),
                        len <= 0x7FFF_FFFF_FFFF_FFFF,
                        hi == data@.len() - 4,
                        lo == data@.len() - 22,
                        last_match(zip_eocd_sig_at(data@), lo as int, hi as int) == last_match(
                            zip_eocd_sig_at(data@),
                            lo as int,
                            i as int,
                        ),
                    decreases i,
                {
                    i -= 1;
                    if data[i] == 0x50 && data[i + 1] == 0x4B && data[i + 2] == 0x05 && data[i + 3] == 0x06 {
                        return i as u64 + 22;
                    }
                }
            }
            len as u64
        },
        FileType::Mp4 => find_mp4_end(data),
        _ => len as u64,
    }
}

/// Recoverability (tenths of a percent) of a carved file: 50%, plus 20% for a
/// size between 1 byte and 100 MB, plus 15% for an image of entropy strictly
/// between 5.0 and 7.8, or 10% for a PDF of entropy below 6.0.
pub open spec fn spec_carve_recoverability(t: FileType, size: u64, e: u64) -> int {
    10 * (50 + (if 0 < size < 100_000_000 {
        20int
    } else {
        0
    }) + match t {
        FileType::Jpeg | FileType::Png | FileType::Gif => if e > ENTROPY_5_0 && e < ENTROPY_7_8 {
            15int
        } else {
            0
        },
        FileType::Pdf => if e < ENTROPY_6_0 {
            10int
        } else {
            0
        },
        _ => 0,
    })
}

/// Recoverability of a carved file of type `t`, estimated size `size`, entropy encoding `e`.
pub fn calculate_carve_recoverability(t: FileType, size: u64, e: u64) -> (r: u32)
    ensures
        r == spec_carve_recoverability(t, size, e),
{
    let mut score: u32 = 50;
    if size > 0 && size < 100_000_000 {
        score += 20;
    }
    match t {
        FileType::Jpeg | FileType::Png | FileType::Gif => {
            if e > ENTROPY_5_0 && e < ENTROPY_7_8 {
                score += 15;
            }
        },
        FileType::Pdf => {
            if e < ENTROPY_6_0 {
                score += 10;
            }
        },
        _ => {},
    }
    10 * score
}

/// File size guessed from entropy alone: 1 MiB above 6.0, 512 KiB above 4.0, 256 KiB otherwise.
pub open spec fn spec_size_from_entropy(e: u64) -> u64 {
    if e > ENTROPY_6_0 {
        1048576
    } else if e > ENTROPY_4_0 {
        524288
    } else {
        262144
    }
}

/// Guesses a file size from the entropy (encoding `e`) of its data.
pub fn estimate_file_size_from_entropy(e: u64) -> (r: u64)
    ensures
        r == spec_size_from_entropy(e),
{
    if e > ENTROPY_6_0 {
        1048576
    } else if e > ENTROPY_4_0 {
        524288
    } else {
        262144
    }
}

/// Recoverability (tenths of a percent) of a file matched by signature `s`:
/// 100%, minus 30% below entropy 2.0 or 20% above 7.9, plus 10% for a non-zero
/// size estimate under the signature's maximum, plus 5% for PDF and ZIP, at most 100%.
pub open spec fn spec_recoverability(s: SignatureSpec, e: u64, size: u64) -> int {
    let base = 100 - (if e < ENTROPY_2_0 {
        30int
    } else if e > ENTROPY_7_9 {
        20
    } else {
        0
    });
    let sized = base + if size > 0 && (match s.max_size {
        Some(m) => size < m,
        None => true,
    }) {
        10int
    } else {
        0
    };
    let typed = sized + match s.file_type {
        FileType::Pdf | FileType::Zip => 5int,
        _ => 0,
    };
    10 * crate::classifier::clamp(typed, 0, 100)
}

/// Recoverability of a file matched by `sig`, with entropy encoding `e` and size estimate `size`.
pub fn calculate_recoverability(sig: &FileSignature, e: u64, size: u64) -> (r: u32)
    ensures
        r == spec_recoverability(sig@, e, size),
{
    let mut score: u32 = 100;
    if e < ENTROPY_2_0 {
        score -= 30;
    } else if e > ENTROPY_7_9 {
        score -= 20;
    }
    if size > 0 {
        match sig.max_size {
            Some(m) => {
                if size < m {
                    score += 10;
                }
            },
            None => {
                score += 10;
            },
        }
    }
    match sig.file_type {
        FileType::Pdf | FileType::Zip => {
            score += 5;
        },
        _ => {},
    }
    if score > 100 {
        score = 100;
    }
    10 * score
}

/// Signature `k` occurs somewhere in `d` before its last possible position.
pub open spec fn partial_candidate(d: Seq<u8>) -> spec_fn(int) -> bool {
    |k: int|
        spec_signature(k).magic.len() > 0 && crate::bytes::any_in(
            crate::bytes::pattern_at(d, spec_signature(k).magic, 0),
            0,
            crate::signatures::sat_sub(d.len() as int, spec_signature(k).magic.len() as int),
        )
}

/// Type of the first signature (in database order) whose magic bytes occur anywhere in `data`
/// (the very last possible position excluded).
pub fn detect_partial_signature(data: &[u8]) -> (r: Option<FileType>)
    ensures
        match first_match(partial_candidate(data@), 0, signature_count() as int) {
            Some(k) => r == Some(spec_signature(k).file_type),
            None => r is None,
        },
{
    let db = signature_database();
    let n = db.len();
    let mut k: usize = 0;
    while k < n
        invariant
            n == db@.len(),
            n == signature_count(),
            k <= n,
            forall|j: int| 0 <= j < n ==> #[trigger] db@[j]@ == spec_signature_database()[j],
            first_match(partial_candidate(data@), 0, n as int) == first_match(partial_candidate(data@), k as int, n as int),
        decreases n - k,
    {
        let sig = &db[k];
        assert(sig@ == spec_signature(k as int));
        let m = sig.magic_bytes.len();
        if m > 0 {
            let hi = if data.len() >= m {
                data.len() - m
            } else {
                0
            };
            if crate::bytes::contains_pattern(data, sig.magic_bytes.as_slice(), 0, 0, hi) {
                return Some(sig.file_type);
            }
        }
        k += 1;
    }
    None
}

/// Signature `k` has non-empty magic bytes at the very start of `w`.
pub open spec fn quick_candidate(w: Seq<u8>) -> spec_fn(int) -> bool {
    |k: int| spec_signature(k).magic.len() > 0 && bytes_at(w, 0, spec_signature(k).magic)
}

/// The file carved from a window `w` at `offset` with entropy encoding `e`, if
/// some signature's magic bytes start the window.
pub open spec fn spec_quick_carve(w: Seq<u8>, offset: u64, e: u64) -> Option<FoundFileView> {
    match first_match(quick_candidate(w), 0, signature_count() as int) {
        Some(k) => {
            let t = spec_signature(k).file_type;
            let size = spec_file_boundaries(w, t) as u64;
            Some(
                FoundFileView {
                    offset,
                    file_type: t,
                    file_name: spec_default_name(t, offset),
                    estimated_size: size,
                    recoverability: spec_carve_recoverability(t, size, e) as u32,
                    entropy: e,
                    signature_matched: spec_signature_label(spec_signature(k).magic),
                    selected: true,
                },
            )
        },
        None => None,
    }
}

/// Carves a file from a window whose start carries a known signature; `entropy`
/// is the encoding of the window's entropy.
pub fn quick_carve_window(window: &[u8], offset: u64, entropy: u64) -> (r: Option<FoundFile>)
    requires
        window@.len() <= 0x7FFF_FFFF_FFFF_FFFF,
    ensures
        match spec_quick_carve(window@, offset, entropy) {
            Some(f) => r is Some && r->0@ == f,
            None => r is None,
        },
{
    let db = signature_database();
    let n = db.len();
    let mut i: usize = 0;
    while i < n
        invariant
            n == db@.len(),
            n == signature_count(),
            i <= n,
            window@.len() <= 0x7FFF_FFFF_FFFF_FFFF,
            forall|k: int| 0 <= k < n ==> #[trigger] db@[k]@ == spec_signature_database()[k],
            first_match(quick_candidate(window@), 0, n as int) == first_match(
                quick_candidate(window@),
                i as int,
                n as int,
            ),
        decreases n - i,
    {
        let sig = &db[i];
        assert(sig@ == spec_signature(i as int));
        if sig.magic_bytes.len() > 0 && crate::bytes::bytes_at_exec(window, 0, sig.magic_bytes.as_slice()) {
            proof {
                lemma_signature_facts(i as int);
                assert(window@.len() >= sig.magic_bytes@.len());
            }
            let estimated_size = find_file_boundaries(window, sig.file_type);
            let recoverability = calculate_carve_recoverability(sig.file_type, estimated_size, entropy);
            return Some(
                FoundFile {
                    offset,
                    file_type: sig.file_type,
                    file_name: default_file_name(sig.file_type, offset),
                    estimated_size,
                    recoverability,
                    entropy,
                    signature_matched: signature_label(sig.magic_bytes.as_slice()),
                    selected: true,
                },
            );
        }
        i += 1;
    }
    None
}

/// Number of carving windows (one per 512 bytes, before the last 512) of data of length `len`.
pub open spec fn carve_window_count(len: nat) -> nat {
    ((crate::signatures::sat_sub(len as int, 512) + 511) / 512) as nat
}

/// The files carved from the first `n` carving windows of `d` (found at `base`);
/// `ents[k]` is the entropy encoding of window `k`.
pub open spec fn spec_carve_results(d: Seq<u8>, base: u64, ents: Seq<u64>, n: nat) -> Seq<FoundFileView>
    decreases n,
{
    if n == 0 {
        Seq::empty()
    } else {
        let prev = spec_carve_results(d, base, ents, (n - 1) as nat);
        match spec_quick_carve(sector(d, n - 1), (base + 512 * (n - 1)) as u64, ents[n - 1]) {
            Some(f) => prev.push(f),
            None => prev,
        }
    }
}

/// Carves files from `data` (found at disk offset `base_offset`) by looking for a
/// signature at the start of every 512-byte window before the last 512 bytes;
/// `window_entropies[k]` is the entropy encoding of window `k`.
pub fn deep_scan_carving(data: &[u8], base_offset: u64, window_entropies: &Vec<u64>) -> (r: Vec<FoundFile>)
    requires
        window_entropies@.len() == carve_window_count(data@.len() as nat),
        base_offset + data@.len() <= u64::MAX,
    ensures
        views(r@) == spec_carve_results(data@, base_offset, window_entropies@, carve_window_count(data@.len() as nat)),
{
    let mut found: Vec<FoundFile> = Vec::new();
    let n = window_entropies.len();
    let mut k: usize = 0;
    while k < n
        invariant
            n == carve_window_count(data@.len() as nat),
            n == window_entropies@.len(),
            k <= n,
            base_offset + data@.len() <= u64::MAX,
            views(found@) == spec_carve_results(data@, base_offset, window_entropies@, k as nat),
        decreases n - k,
    {
        assert(k < sector_count(data@.len() as nat)) by (nonlinear_arith)
            requires
                k < n,
                n == (crate::signatures::sat_sub(data@.len() as int, 512) + 511) / 512,
        ;
        let w = sector_slice(data, k);
        proof {
            lemma_sector_start(data@.len() as nat, k as nat);
        }
        match quick_carve_window(w, base_offset + (k as u64) * 512, window_entropies[k]) {
            Some(f) => {
                found.push(f);
            },
            None => {},
        }
        k += 1;
        assert(views(found@) =~= spec_carve_results(data@, base_offset, window_entropies@, k as nat));
    }
    found
}

/// Signature `k` (non-empty) occurs in `w` at position `i`, before the last possible position.
pub open spec fn carve_hit(w: Seq<u8>, k: int, i: int) -> bool {
    spec_signature(k).magic.len() > 0 && 0 <= i < crate::signatures::sat_sub(
        w.len() as int,
        spec_signature(k).magic.len() as int,
    ) && bytes_at(w, i, spec_signature(k).magic)
}

/// Signature `k` occurs somewhere in `w` (see [`carve_hit`]).
pub open spec fn carve_candidate(w: Seq<u8>) -> spec_fn(int) -> bool {
    |k: int| exists|i: int| #[trigger] carve_hit(w, k, i)
}

/// Where a carved file starts: a signature of the database and a position in the window.
pub struct CarvePosition {
    pub signature_index: usize,
    pub position: usize,
}

/// Finds where a file can be carved from a window: the first signature (in
/// database order) that occurs in it, and its first position there.
pub fn locate_carve(window: &[u8]) -> (r: Option<CarvePosition>)
    ensures
        match first_match(carve_candidate(window@), 0, signature_count() as int) {
            Some(k) => r matches Some(c) && c.signature_index == k && carve_hit(window@, k, c.position as int)
                && forall|j: int| 0 <= j < c.position ==> !carve_hit(window@, k, j),
            None => r is None,
        },
{
    let db = signature_database();
    let n = db.len();
    let mut k: usize = 0;
    while k < n
        invariant
            n == db@.len(),
            n == signature_count(),
            k <= n,
            forall|j: int| 0 <= j < n ==> #[trigger] db@[j]@ == spec_signature_database()[j],
            first_match(carve_candidate(window@), 0, n as int) == first_match(carve_candidate(window@), k as int, n as int),
        decreases n - k,
    {
        let sig = &db[k];
        assert(sig@ == spec_signature(k as int));
        let m = sig.magic_bytes.len();
        if m > 0 {
            let hi = if window.len() >= m {
                window.len() - m
            } else {
                0
            };
            let mut i: usize = 0;
            while i < hi
                invariant
                    i <= hi,
                    m == spec_signature(k as int).magic.len(),
                    m > 0,
                    hi == crate::signatures::sat_sub(window@.len() as int, m as int),
                    sig@ == spec_signature(k as int),
                    k < n,
                    n == signature_count(),
                    first_match(carve_candidate(window@), 0, n as int) == first_match(carve_candidate(window@), k as int, n as int),
                    forall|j: int| 0 <= j < i ==> !carve_hit(window@, k as int, j),
                decreases hi - i,
            {
                if crate::bytes::bytes_at_exec(window, i, sig.magic_bytes.as_slice()) {
                    assert(carve_hit(window@, k as int, i as int));
                    assert(carve_candidate(window@)(k as int));
                    return Some(CarvePosition { signature_index: k, position: i });
                }
                i += 1;
            }
            assert forall|j: int| !#[trigger] carve_hit(window@, k as int, j) by {
                if 0 <= j < hi {
                }
            }
            assert(!carve_candidate(window@)(k as int));
        } else {
            assert(!carve_candidate(window@)(k as int));
        }
        k += 1;
    }
    None
}

/// The file carved at a located position `i` of window `w` (found at `offset`)
/// with signature `k`; `e` is the entropy encoding of `w` from `i` on.
pub open spec fn spec_carved_file(w: Seq<u8>, offset: u64, k: int, i: int, e: u64) -> FoundFileView {
    let t = spec_signature(k).file_type;
    let size = spec_file_boundaries(w.subrange(i, w.len() as int), t) as u64;
    FoundFileView {
        offset: (offset + i) as u64,
        file_type: t,
        file_name: spec_default_name(t, (offset + i) as u64),
        estimated_size: size,
        recoverability: spec_carve_recoverability(t, size, e) as u32,
        entropy: e,
        signature_matched: spec_signature_label(spec_signature(k).magic),
        selected: true,
    }
}

/// Builds the file carved at a position found by [`locate_carve`]; `entropy` is
/// the encoding of the entropy of the window from that position on.
pub fn carve_file_at(window: &[u8], offset: u64, pos: &CarvePosition, entropy: u64) -> (r: FoundFile)
    requires
        pos.signature_index < signature_count(),
        carve_hit(window@, pos.signature_index as int, pos.position as int),
        offset + window@.len() <= u64::MAX,
        window@.len() <= 0x7FFF_FFFF_FFFF_FFFF,
    ensures
        r@ == spec_carved_file(window@, offset, pos.signature_index as int, pos.position as int, entropy),
{
    let sig = crate::signatures::signature_at_index(pos.signature_index);
    let i = pos.position;
    let rest = vstd::slice::slice_subrange(window, i, window.len());
    proof {
        lemma_signature_facts(pos.signature_index as int);
    }
    let estimated_size = find_file_boundaries(rest, sig.file_type);
    let recoverability = calculate_carve_recoverability(sig.file_type, estimated_size, entropy);
    let file_offset = offset + i as u64;
    FoundFile {
        offset: file_offset,
        file_type: sig.file_type,
        file_name: default_file_name(sig.file_type, file_offset),
        estimated_size,
        recoverability,
        entropy,
        signature_matched: signature_label(sig.magic_bytes.as_slice()),
        selected: true,
    }
}

/// Signature `k` is enabled and matches `w`.
pub open spec fn window_candidate(w: Seq<u8>, enabled: Option<Seq<FileType>>) -> spec_fn(int) -> bool {
    |k: int| type_enabled(enabled, spec_signature(k).file_type) && signature_matches(spec_signature(k), w)
}

/// The file found in a search window `w` at `offset` with entropy encoding `e`, if any.
pub open spec fn spec_find_in_window(
    w: Seq<u8>,
    offset: u64,
    enabled: Option<Seq<FileType>>,
    e: u64,
) -> Option<FoundFileView> {
    match first_match(window_candidate(w, enabled), 0, signature_count() as int) {
        Some(k) => {
            let s = spec_signature(k);
            Some(
                FoundFileView {
                    offset,
                    file_type: s.file_type,
                    file_name: match spec_extracted_name(w, s.file_type) {
                        Some(n) => n,
                        None => spec_default_name(s.file_type, offset),
                    },
                    estimated_size: match spec_estimate_size(s.file_type, w) {
                        Some(z) => z,
                        None => 0,
                    },
                    recoverability: spec_classified_probability(w, e) as u32,
                    entropy: e,
                    signature_matched: spec_signature_label(s.magic),
                    selected: true,
                },
            )
        },
        None => None,
    }
}

/// Looks for an enabled signature in a search window (at most 2048 bytes) found at
/// `offset`; `entropy` is the encoding of the window's entropy.
pub fn find_signature_in_window(
    window: &[u8],
    offset: u64,
    enabled_types: &Option<Vec<FileType>>,
    ai_classifier: &AIClassifier,
    entropy: u64,
) -> (r: Option<FoundFile>)
    requires
        window@.len() <= ENTROPY_WINDOW,
        sector_search_defined(window@, enabled_view(*enabled_types)),
    ensures
        match spec_find_in_window(window@, offset, enabled_view(*enabled_types), entropy) {
            Some(f) => r is Some && r->0@ == f,
            None => r is None,
        },
{
    let db = signature_database();
    let n = db.len();
    let mut i: usize = 0;
    while i < n
        invariant
            n == db@.len(),
            n == signature_count(),
            i <= n,
            window@.len() <= ENTROPY_WINDOW,
            sector_search_defined(window@, enabled_view(*enabled_types)),
            forall|k: int| 0 <= k < n ==> #[trigger] db@[k]@ == spec_signature_database()[k],
            first_match(window_candidate(window@, enabled_view(*enabled_types)), 0, n as int)
                == first_match(window_candidate(window@, enabled_view(*enabled_types)), i as int, n as int),
        decreases n - i,
    {
        let sig = &db[i];
        assert(sig@ == spec_signature(i as int));
        if is_type_enabled(enabled_types, sig.file_type) && sig.matches(window) {
            proof {
                lemma_signature_facts(i as int);
                let sp = spec_signature(i as int);
                assert(window@.subrange(sp.offset as int, (sp.offset + sp.magic.len()) as int) == sp.magic);
                if sp.file_type == FileType::Mp3 {
                    assert(window@[0] == window@.subrange(0, 2)[0]);
                    assert(window@[1] == window@.subrange(0, 2)[1]);
                }
            }
            let estimated_size = match sig.estimate_size(window) {
                Some(z) => z,
                None => 0,
            };
            let classification = ai_classifier.classify(window, entropy);
            let file_name = match extract_filename_from_data(window, sig.file_type) {
                Some(name) => name,
                None => default_file_name(sig.file_type, offset),
            };
            return Some(
                FoundFile {
                    offset,
                    file_type: sig.file_type,
                    file_name,
                    estimated_size,
                    recoverability: classification.recovery_prediction.probability,
                    entropy,
                    signature_matched: signature_label(sig.magic_bytes.as_slice()),
                    selected: true,
                },
            );
        }
        i += 1;
    }
    None
}

/// Number of 64-byte search windows (one every 16 bytes, before the last 64 bytes).
pub open spec fn search_window_count(len: nat) -> nat {
    ((crate::signatures::sat_sub(len as int, 64) + 15) / 16) as nat
}

/// Search window `k` of `d`: 64 bytes from `16 * k`.
pub open spec fn search_window(d: Seq<u8>, k: int) -> Seq<u8> {
    d.subrange(16 * k, if 16 * k + 64 <= d.len() {
        16 * k + 64
    } else {
        d.len() as int
    })
}

/// The files found in the first `n` search windows of `d` (found at `base`).
pub open spec fn spec_search_results(
    d: Seq<u8>,
    base: u64,
    enabled: Option<Seq<FileType>>,
    ents: Seq<u64>,
    n: nat,
) -> Seq<FoundFileView>
    decreases n,
{
    if n == 0 {
        Seq::empty()
    } else {
        let prev = spec_search_results(d, base, enabled, ents, (n - 1) as nat);
        match spec_find_in_window(search_window(d, n - 1), (base + 16 * (n - 1)) as u64, enabled, ents[n - 1]) {
            Some(f) => prev.push(f),
            None => prev,
        }
    }
}

/// Every search window of `d` can be searched without panicking.
pub open spec fn windows_searchable(d: Seq<u8>, enabled: Option<Seq<FileType>>) -> bool {
    forall|k: int| 0 <= k < search_window_count(d.len()) ==> #[trigger] sector_search_defined(search_window(d, k), enabled)
}

/// Searches 64-byte windows of `data` (one every 16 bytes) for enabled
/// signatures; `window_entropies[k]` is the entropy encoding of window `k`.
pub fn search_signatures(
    data: &[u8],
    base_offset: u64,
    enabled_types: &Option<Vec<FileType>>,
    ai_classifier: &AIClassifier,
    window_entropies: &Vec<u64>,
) -> (r: Vec<FoundFile>)
    requires
        window_entropies@.len() == search_window_count(data@.len() as nat),
        base_offset + data@.len() <= u64::MAX,
        windows_searchable(data@, enabled_view(*enabled_types)),
    ensures
        views(r@) == spec_search_results(
            data@,
            base_offset,
            enabled_view(*enabled_types),
            window_entropies@,
            search_window_count(data@.len() as nat),
        ),
{
    let mut found: Vec<FoundFile> = Vec::new();
    let n = window_entropies.len();
    let mut k: usize = 0;
    while k < n
        invariant
            n == search_window_count(data@.len() as nat),
            n == window_entropies@.len(),
            k <= n,
            base_offset + data@.len() <= u64::MAX,
            windows_searchable(data@, enabled_view(*enabled_types)),
            views(found@) == spec_search_results(
                data@,
                base_offset,
                enabled_view(*enabled_types),
                window_entropies@,
                k as nat,
            ),
        decreases n - k,
    {
        assert(16 * k + 64 < data@.len()) by (nonlinear_arith)
            requires
                k < n,
                n == (crate::signatures::sat_sub(data@.len() as int, 64) + 15) / 16,
        ;
        assert(data@.len() == data.len());
        let start = k * 16;
        let w = vstd::slice::slice_subrange(data, start, start + 64);
        assert(w@ == search_window(data@, k as int));
        assert(sector_search_defined(search_window(data@, k as int), enabled_view(*enabled_types)));
        match find_signature_in_window(w, base_offset + start as u64, enabled_types, ai_classifier, window_entropies[k]) {
            Some(f) => {
                found.push(f);
            },
            None => {},
        }
        k += 1;
        assert(views(found@) =~= spec_search_results(
            data@,
            base_offset,
            enabled_view(*enabled_types),
            window_entropies@,
            k as nat,
        ));
    }
    found
}

} // verus!
