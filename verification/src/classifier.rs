//! Heuristic classification of recovered data: file type, structural
//! validity and a prediction of how likely recovery is to succeed.
//!
//! Scores are integers: a percentage `x` is carried as `10 * x` (tenths of a
//! percent), which represents every score this classifier produces exactly.

use vstd::prelude::*;
use crate::bytes::{any_in, bytes_at, contains_pattern, pattern_at};
use crate::entropy::{
    entropy_window, EntropyAnalyzer, ENTROPY_0_5, ENTROPY_2_0, ENTROPY_3_0, ENTROPY_5_0, ENTROPY_7_5,
    ENTROPY_7_9,
};
use crate::signatures::{
    detect_file_type, signature_matches, spec_detect_index, spec_signature_database, FileType,
};

verus! {

/// Prediction of how a recovery of the data will turn out.
pub struct RecoveryPrediction {
    /// Probability of a successful recovery, in tenths of a percent (0 to 1000).
    pub probability: u32,
    pub is_fragmented: bool,
    pub is_corrupted: bool,
    /// Confidence in the prediction, in tenths of a percent (0 to 1000).
    pub confidence: u32,
    pub recommendation: String,
}

/// Classification of a piece of data.
pub struct FileClassification {
    pub file_type: FileType,
    /// Confidence in the classification, in tenths of a percent (0 to 1000).
    pub confidence: u32,
    /// Encoding of the entropy of the first 2048 bytes (see [`crate::entropy`]).
    pub entropy: u64,
    pub is_valid: bool,
    pub recovery_prediction: RecoveryPrediction,
}

/// Heuristic file classifier.
pub struct AIClassifier {
    entropy_analyzer: EntropyAnalyzer,
}

/// The first `k` bytes of `d`, or all of `d` when it is shorter.
pub open spec fn prefix(d: Seq<u8>, k: int) -> Seq<u8> {
    if d.len() > k {
        d.subrange(0, k)
    } else {
        d
    }
}

/// A byte that counts as printable text: graphic ASCII, space, newline, carriage return, tab.
pub open spec fn is_text_byte(b: u8) -> bool {
    (0x21 <= b <= 0x7E) || b == 0x20 || b == 0x0A || b == 0x0D || b == 0x09
}

/// Number of printable bytes in `d`.
pub open spec fn count_text_bytes(d: Seq<u8>) -> nat
    decreases d.len(),
{
    if d.len() == 0 {
        0
    } else {
        count_text_bytes(d.drop_last()) + if is_text_byte(d.last()) {
            1nat
        } else {
            0nat
        }
    }
}

/// More than 80% of the first 256 bytes of `d` are printable.
pub open spec fn mostly_text(d: Seq<u8>) -> bool {
    5 * count_text_bytes(prefix(d, 256)) > 4 * prefix(d, 256).len()
}

/// Type guess and its confidence (in percent) for data `d` whose entropy has encoding `e`:
/// a matching signature wins; otherwise near-empty data is unknown, text-like data
/// of low entropy is text, and anything else is unknown.
pub open spec fn spec_guess_type(d: Seq<u8>, e: u64) -> (FileType, int) {
    match spec_detect_index(d) {
        Some(i) => (spec_signature_database()[i].file_type, 90),
        None => if bytes_at(d, 0, dex_pattern()) {
            (FileType::Dex, 90)
        } else if bytes_at(d, 0, sqlite_pattern()) {
            (FileType::Db, 90)
        } else if e < ENTROPY_0_5 {
            (FileType::Unknown, 10)
        } else if d.len() > 20 && mostly_text(d) && e < ENTROPY_5_0 {
            (FileType::Text, 40)
        } else {
            (FileType::Unknown, 20)
        },
    }
}

/// The classifier's own DEX pattern, `dex\n035\0`, consulted after the
/// signature database.
pub open spec fn dex_pattern() -> Seq<u8> {
    seq![0x64u8, 0x65u8, 0x78u8, 0x0Au8, 0x30u8, 0x33u8, 0x35u8, 0x00u8]
}

/// The classifier's own SQLite pattern, `SQLite`, consulted after the
/// signature database.
pub open spec fn sqlite_pattern() -> Seq<u8> {
    seq![0x53u8, 0x51u8, 0x4Cu8, 0x69u8, 0x74u8, 0x65u8]
}

/// `FF D8`, the start of a JPEG image.
pub open spec fn jpeg_soi() -> Seq<u8> {
    seq![0xFFu8, 0xD8u8]
}

/// `FF D9`, the end of a JPEG image.
pub open spec fn jpeg_eoi() -> Seq<u8> {
    seq![0xFFu8, 0xD9u8]
}

/// The eight-byte PNG signature.
pub open spec fn png_signature() -> Seq<u8> {
    seq![0x89u8, 0x50u8, 0x4Eu8, 0x47u8, 0x0Du8, 0x0Au8, 0x1Au8, 0x0Au8]
}

/// `IEND`, the type of the last PNG chunk.
pub open spec fn png_iend() -> Seq<u8> {
    seq![0x49u8, 0x45u8, 0x4Eu8, 0x44u8]
}

/// `GIF87a`.
pub open spec fn gif87a() -> Seq<u8> {
    seq![0x47u8, 0x49u8, 0x46u8, 0x38u8, 0x37u8, 0x61u8]
}

/// `GIF89a`.
pub open spec fn gif89a() -> Seq<u8> {
    seq![0x47u8, 0x49u8, 0x46u8, 0x38u8, 0x39u8, 0x61u8]
}

/// `BM`, the start of a bitmap.
pub open spec fn bmp_magic() -> Seq<u8> {
    seq![0x42u8, 0x4Du8]
}

/// `%PDF-`.
pub open spec fn pdf_header() -> Seq<u8> {
    seq![0x25u8, 0x50u8, 0x44u8, 0x46u8, 0x2Du8]
}

/// `%%EOF`.
pub open spec fn pdf_eof() -> Seq<u8> {
    seq![0x25u8, 0x25u8, 0x45u8, 0x4Fu8, 0x46u8]
}

/// `PK 03 04`, a ZIP local file header.
pub open spec fn zip_local_header() -> Seq<u8> {
    seq![0x50u8, 0x4Bu8, 0x03u8, 0x04u8]
}

/// `AndroidManifest.xml`.
pub open spec fn android_manifest() -> Seq<u8> {
    seq![
        0x41u8, 0x6Eu8, 0x64u8, 0x72u8, 0x6Fu8, 0x69u8, 0x64u8, 0x4Du8, 0x61u8, 0x6Eu8, 0x69u8,
        0x66u8, 0x65u8, 0x73u8, 0x74u8, 0x2Eu8, 0x78u8, 0x6Du8, 0x6Cu8,
    ]
}

/// `dex\n03` followed by `v` and a zero byte.
pub open spec fn dex_magic(v: u8) -> Seq<u8> {
    seq![0x64u8, 0x65u8, 0x78u8, 0x0Au8, 0x30u8, 0x33u8, v, 0x00u8]
}

/// `SQLite format 3` followed by a zero byte.
pub open spec fn sqlite_header() -> Seq<u8> {
    seq![
        0x53u8, 0x51u8, 0x4Cu8, 0x69u8, 0x74u8, 0x65u8, 0x20u8, 0x66u8, 0x6Fu8, 0x72u8, 0x6Du8,
        0x61u8, 0x74u8, 0x20u8, 0x33u8, 0x00u8,
    ]
}

/// The first eight bytes are a DEX magic of version 035, 036 or 037.
pub open spec fn has_dex_magic(d: Seq<u8>) -> bool {
    bytes_at(d, 0, dex_magic(0x35)) || bytes_at(d, 0, dex_magic(0x36)) || bytes_at(
        d,
        0,
        dex_magic(0x37),
    )
}

/// Structural check of JPEG data: `FF D8` start and an `FF D9` somewhere.
pub open spec fn spec_validate_jpeg(d: Seq<u8>) -> bool {
    d.len() >= 4 && bytes_at(d, 0, jpeg_soi()) && any_in(
        pattern_at(d, jpeg_eoi(), 0),
        0,
        d.len() - 1,
    )
}

/// Structural check of PNG data: signature and an `IEND` chunk type inside a 12-byte window.
pub open spec fn spec_validate_png(d: Seq<u8>) -> bool {
    d.len() >= 8 && bytes_at(d, 0, png_signature()) && any_in(
        pattern_at(d, png_iend(), 4),
        0,
        d.len() - 11,
    )
}

/// Structural check of GIF data.
pub open spec fn spec_validate_gif(d: Seq<u8>) -> bool {
    (bytes_at(d, 0, gif87a()) || bytes_at(d, 0, gif89a())) && d.len() >= 10
}

/// Structural check of APK data: ZIP header and `AndroidManifest.xml` in the first 64 KiB.
pub open spec fn spec_validate_apk(d: Seq<u8>) -> bool {
    bytes_at(d, 0, zip_local_header()) && any_in(
        pattern_at(prefix(d, 65536), android_manifest(), 0),
        0,
        prefix(d, 65536).len() - 18,
    )
}

/// Structural validation of data `d` believed to be of type `t` (at least 16 bytes needed).
pub open spec fn spec_validate_data(d: Seq<u8>, t: FileType) -> bool {
    d.len() >= 16 && match t {
        FileType::Jpeg => spec_validate_jpeg(d),
        FileType::Png => spec_validate_png(d),
        FileType::Gif => spec_validate_gif(d),
        FileType::Bmp => bytes_at(d, 0, bmp_magic()),
        FileType::Pdf => bytes_at(d, 0, pdf_header()),
        FileType::Apk => spec_validate_apk(d),
        FileType::Dex => d.len() >= 12 && has_dex_magic(d),
        FileType::Db => bytes_at(d, 0, sqlite_header()),
        _ => true,
    }
}

/// Types whose structure the classifier checks.
pub open spec fn is_checked_type(t: FileType) -> bool {
    match t {
        FileType::Jpeg | FileType::Png | FileType::Gif | FileType::Bmp | FileType::Pdf
        | FileType::Apk | FileType::Dex | FileType::Db => true,
        _ => false,
    }
}

/// Types of the image category.
pub open spec fn is_image_type(t: FileType) -> bool {
    match t {
        FileType::Jpeg | FileType::Png | FileType::Gif | FileType::Bmp | FileType::Tiff
        | FileType::Webp | FileType::Ico | FileType::Heic | FileType::Raw | FileType::Psd
        | FileType::Ai | FileType::Svg => true,
        _ => false,
    }
}

/// Abstract prediction: probability and confidence in tenths of a percent.
pub struct PredictionSpec {
    pub probability: int,
    pub is_fragmented: bool,
    pub is_corrupted: bool,
    pub confidence: int,
}

/// Starting probability and confidence (percent) and corruption flag from entropy alone.
pub open spec fn entropy_stage(e: u64) -> (int, int, bool) {
    if e < ENTROPY_0_5 {
        (20, 20, true)
    } else if e < ENTROPY_2_0 {
        (50, 50, false)
    } else if e > ENTROPY_7_9 {
        (65, 65, false)
    } else if e > ENTROPY_5_0 && e < ENTROPY_7_5 {
        (85, 85, false)
    } else {
        (80, 70, false)
    }
}

/// A JPEG quantisation (`DB`) or Huffman (`C4`) marker byte among the first 2048 bytes.
pub open spec fn has_jpeg_tables(d: Seq<u8>) -> bool {
    exists|i: int| 0 <= i < prefix(d, 2048).len() && (#[trigger] d[i] == 0xDB || d[i] == 0xC4)
}

/// Type-specific change of probability and confidence (percent), and the
/// fragmentation and corruption flags it raises.
pub open spec fn type_stage(d: Seq<u8>, t: FileType) -> (int, int, bool, bool) {
    match t {
        FileType::Jpeg => if d.len() > 4 && d[0] == 0xFF && d[1] == 0xD8 {
            let tables = has_jpeg_tables(d);
            let eoi = any_in(pattern_at(d, jpeg_eoi(), 0), 0, d.len() - 1);
            (
                10 + (if tables {
                    10int
                } else {
                    0
                }) + (if eoi {
                    10int
                } else {
                    -10
                }),
                if tables {
                    10int
                } else {
                    0
                },
                !eoi,
                false,
            )
        } else {
            (-30, 0, false, true)
        },
        FileType::Png => if d.len() > 8 && bytes_at(d, 0, png_signature().subrange(0, 4)) {
            (10, 0, false, false)
        } else {
            (-40, 0, false, true)
        },
        FileType::Gif | FileType::Bmp => (15, 10, false, false),
        FileType::Pdf => if any_in(pattern_at(d, pdf_eof(), 0), 0, d.len() - 4) {
            (8, 5, false, false)
        } else {
            (-12, 5, true, false)
        },
        FileType::Zip | FileType::Apk => (8, 5, false, false),
        FileType::Dex => if d.len() > 8 && has_dex_magic(d) {
            (15, 10, false, false)
        } else {
            (0, 0, false, false)
        },
        FileType::Db => if d.len() >= 16 && bytes_at(d, 0, sqlite_header()) {
            (20, 15, false, false)
        } else {
            (0, 0, false, false)
        },
        FileType::Mp4 | FileType::Avi | FileType::MkV | FileType::ThreeGp => (-5, 0, true, false),
        FileType::Text => (5, 10, false, false),
        _ => (0, 0, false, false),
    }
}

/// `v` limited to `[lo, hi]`.
pub open spec fn clamp(v: int, lo: int, hi: int) -> int {
    if v < lo {
        lo
    } else if v > hi {
        hi
    } else {
        v
    }
}

/// The recovery prediction for data `d` of type `t`, entropy encoding `e` and validity `valid`.
pub open spec fn spec_predict(d: Seq<u8>, t: FileType, e: u64, valid: bool) -> PredictionSpec {
    let (p0, c0, corrupt0) = entropy_stage(e);
    let (dp, dc, frag, corrupt1) = type_stage(d, t);
    let invalid = !valid && t != FileType::Unknown;
    let p1 = p0 + dp - if invalid {
        20int
    } else {
        0
    };
    let c1 = c0 + dc - if invalid {
        15int
    } else {
        0
    };
    // probability in tenths of a percent after the size penalty for small images
    let p2 = if is_image_type(t) && d.len() < 5000 {
        p1 * 5
    } else if is_image_type(t) && d.len() < 50000 {
        p1 * 8
    } else {
        p1 * 10
    };
    PredictionSpec {
        probability: clamp(p2, 0, 1000),
        is_fragmented: frag,
        is_corrupted: corrupt0 || corrupt1 || invalid || (is_image_type(t) && d.len() < 5000),
        confidence: 10 * clamp(c1, 0, 100),
    }
}

/// Recommendation text for a probability in tenths of a percent.
pub open spec fn spec_recommendation(p: int) -> Seq<char> {
    if p > 850 {
        "Alta probabilidad de recuperación exitosa"@
    } else if p > 650 {
        "Buena probabilidad de recuperación"@
    } else if p > 400 {
        "Recuperación posible pero archivo puede estar fragmentado"@
    } else if p > 200 {
        "Archivo muy probablemente corrupto o fragmentado"@
    } else {
        "Baja probabilidad de recuperación"@
    }
}

/// `r` is the prediction that `spec_predict` describes.
pub open spec fn prediction_is(r: RecoveryPrediction, s: PredictionSpec) -> bool {
    &&& r.probability == s.probability
    &&& r.is_fragmented == s.is_fragmented
    &&& r.is_corrupted == s.is_corrupted
    &&& r.confidence == s.confidence
    &&& r.recommendation@ == spec_recommendation(s.probability)
}

/// Whether the classifier validates `d` as type `t` (types it does not check are valid).
pub open spec fn spec_is_valid(d: Seq<u8>, t: FileType) -> bool {
    if is_checked_type(t) {
        spec_validate_data(d, t)
    } else {
        true
    }
}

/// Combined confidence (tenths): 60% of the type guess, 40% of the prediction's, at most 100%.
pub open spec fn spec_confidence(guess_confidence: int, prediction_confidence: int) -> int {
    if 6 * guess_confidence + 4 * (prediction_confidence / 10) > 1000 {
        1000
    } else {
        6 * guess_confidence + 4 * (prediction_confidence / 10)
    }
}

/// `c` is the classification of `d` whose entropy encoding is `e`.
pub open spec fn classification_is(c: FileClassification, d: Seq<u8>, e: u64) -> bool {
    let (t, gc) = spec_guess_type(d, e);
    let valid = spec_is_valid(d, t);
    let p = spec_predict(d, t, e, valid);
    &&& c.file_type == t
    &&& c.entropy == e
    &&& c.is_valid == valid
    &&& prediction_is(c.recovery_prediction, p)
    &&& c.confidence == spec_confidence(gc, p.confidence)
}

/// Data long enough to carry a magic number, with a known signature.
pub open spec fn spec_can_carve(d: Seq<u8>) -> bool {
    d.len() >= 4 && spec_detect_index(d) is Some
}

/// Number of bytes equal to `v` in `d`.
pub open spec fn count_value(d: Seq<u8>, v: u8) -> nat
    decreases d.len(),
{
    if d.len() == 0 {
        0
    } else {
        count_value(d.drop_last(), v) + if d.last() == v {
            1nat
        } else {
            0nat
        }
    }
}

/// Integrity score in percent: 50, minus 40 when over 90% of the bytes are
/// `00` or over 90% are `FF` (minus 20 when over half are), plus 20 for an
/// entropy strictly between 3.0 and 7.5, plus 20 for a known signature.
pub open spec fn spec_integrity_score(d: Seq<u8>, e: u64) -> int {
    if d.len() == 0 {
        0
    } else {
        let zeros = count_value(d, 0);
        let ffs = count_value(d, 0xFF);
        let n = d.len() as int;
        let s0 = if 10 * zeros > 9 * n || 10 * ffs > 9 * n {
            10int
        } else if 2 * zeros > n || 2 * ffs > n {
            30
        } else {
            50
        };
        let s1 = s0 + if e > ENTROPY_3_0 && e < ENTROPY_7_5 {
            20int
        } else {
            0
        };
        clamp(s1 + if spec_can_carve(d) {
            20int
        } else {
            0
        }, 0, 100)
    }
}

fn count_text(data: &[u8], limit: usize) -> (n: usize)
    requires
        limit <= data@.len(),
    ensures
        n == count_text_bytes(data@.subrange(0, limit as int)),
        n <= limit,
{
    let mut n: usize = 0;
    let mut i: usize = 0;
    while i < limit
        invariant
            i <= limit,
            limit <= data@.len(),
            n <= i,
            n == count_text_bytes(data@.subrange(0, i as int)),
        decreases limit - i,
    {
        let b = data[i];
        assert(data@.subrange(0, i + 1).drop_last() =~= data@.subrange(0, i as int));
        if (0x21 <= b && b <= 0x7E) || b == 0x20 || b == 0x0A || b == 0x0D || b == 0x09 {
            n += 1;
        }
        i += 1;
    }
    n
}

/// Number of bytes equal to `v` in `data`.
pub fn count_byte_value(data: &[u8], v: u8) -> (n: usize)
    ensures
        n == count_value(data@, v),
{
    let mut n: usize = 0;
    let mut i: usize = 0;
    while i < data.len()
        invariant
            i <= data@.len(),
            n <= i,
            n == count_value(data@.subrange(0, i as int), v),
        decreases data@.len() - i,
    {
        assert(data@.subrange(0, i + 1).drop_last() =~= data@.subrange(0, i as int));
        if data[i] == v {
            n += 1;
        }
        i += 1;
    }
    assert(data@.subrange(0, data@.len() as int) =~= data@);
    n
}

fn validate_jpeg(data: &[u8]) -> (r: bool)
    ensures
        r == spec_validate_jpeg(data@),
{
    let soi: [u8; 2] = [0xFF, 0xD8];
    let eoi: [u8; 2] = [0xFF, 0xD9];
    assert(soi@ == jpeg_soi());
    assert(eoi@ == jpeg_eoi());
    if data.len() < 4 {
        return false;
    }
    if !crate::bytes::bytes_at_exec(data, 0, &soi) {
        return false;
    }
    contains_pattern(data, &eoi, 0, 0, data.len() - 1)
}

fn validate_png(data: &[u8]) -> (r: bool)
    ensures
        r == spec_validate_png(data@),
{
    let sig: [u8; 8] = [0x89, 0x50, 0x4E, 0x47, 0x0D, 0x0A, 0x1A, 0x0A];
    let iend: [u8; 4] = [0x49, 0x45, 0x4E, 0x44];
    assert(sig@ == png_signature());
    assert(iend@ == png_iend());
    if data.len() < 8 || !crate::bytes::bytes_at_exec(data, 0, &sig) {
        return false;
    }
    if data.len() < 12 {
        return false;
    }
    contains_pattern(data, &iend, 4, 0, data.len() - 11)
}

fn validate_gif(data: &[u8]) -> (r: bool)
    ensures
        r == spec_validate_gif(data@),
{
    let a: [u8; 6] = [0x47, 0x49, 0x46, 0x38, 0x37, 0x61];
    let b: [u8; 6] = [0x47, 0x49, 0x46, 0x38, 0x39, 0x61];
    assert(a@ == gif87a());
    assert(b@ == gif89a());
    (crate::bytes::bytes_at_exec(data, 0, &a) || crate::bytes::bytes_at_exec(data, 0, &b))
        && data.len() >= 10
}

fn validate_apk(data: &[u8]) -> (r: bool)
    ensures
        r == spec_validate_apk(data@),
{
    let pk: [u8; 4] = [0x50, 0x4B, 0x03, 0x04];
    let manifest: [u8; 19] = [
        0x41, 0x6E, 0x64, 0x72, 0x6F, 0x69, 0x64, 0x4D, 0x61, 0x6E, 0x69, 0x66, 0x65, 0x73, 0x74,
        0x2E, 0x78, 0x6D, 0x6C,
    ];
    assert(pk@ == zip_local_header());
    assert(manifest@ == android_manifest());
    if !crate::bytes::bytes_at_exec(data, 0, &pk) {
        return false;
    }
    let limit = if data.len() < 65536 {
        data.len()
    } else {
        65536
    };
    let head = vstd::slice::slice_subrange(data, 0, limit);
    assert(head@ =~= prefix(data@, 65536));
    if limit < 19 {
        return false;
    }
    contains_pattern(head, &manifest, 0, 0, limit - 18)
}

fn check_dex_magic(data: &[u8]) -> (r: bool)
    ensures
        r == has_dex_magic(data@),
{
    let m5: [u8; 8] = [0x64, 0x65, 0x78, 0x0A, 0x30, 0x33, 0x35, 0x00];
    let m6: [u8; 8] = [0x64, 0x65, 0x78, 0x0A, 0x30, 0x33, 0x36, 0x00];
    let m7: [u8; 8] = [0x64, 0x65, 0x78, 0x0A, 0x30, 0x33, 0x37, 0x00];
    assert(m5@ == dex_magic(0x35));
    assert(m6@ == dex_magic(0x36));
    assert(m7@ == dex_magic(0x37));
    crate::bytes::bytes_at_exec(data, 0, &m5) || crate::bytes::bytes_at_exec(data, 0, &m6)
        || crate::bytes::bytes_at_exec(data, 0, &m7)
}

fn check_sqlite_header(data: &[u8]) -> (r: bool)
    ensures
        r == bytes_at(data@, 0, sqlite_header()),
{
    let h: [u8; 16] = [
        0x53, 0x51, 0x4C, 0x69, 0x74, 0x65, 0x20, 0x66, 0x6F, 0x72, 0x6D, 0x61, 0x74, 0x20, 0x33,
        0x00,
    ];
    assert(h@ == sqlite_header());
    crate::bytes::bytes_at_exec(data, 0, &h)
}

fn check_pdf_eof(data: &[u8]) -> (r: bool)
    ensures
        r == any_in(pattern_at(data@, pdf_eof(), 0), 0, data@.len() - 4),
{
    let eof: [u8; 5] = [0x25, 0x25, 0x45, 0x4F, 0x46];
    assert(eof@ == pdf_eof());
    if data.len() < 4 {
        assert forall|k: int| 0 <= k < data@.len() - 4 implies !#[trigger] pattern_at(
            data@,
            pdf_eof(),
            0,
        )(k) by {}
        return false;
    }
    contains_pattern(data, &eof, 0, 0, data.len() - 4)
}

fn has_tables(data: &[u8]) -> (r: bool)
    ensures
        r == has_jpeg_tables(data@),
{
    let limit = if data.len() < 2048 {
        data.len()
    } else {
        2048
    };
    let mut i: usize = 0;
    while i < limit
        invariant
            i <= limit,
            limit == prefix(data@, 2048).len(),
            limit <= data@.len(),
            forall|k: int| 0 <= k < i ==> data@[k] != 0xDB && data@[k] != 0xC4,
        decreases limit - i,
    {
        if data[i] == 0xDB || data[i] == 0xC4 {
            return true;
        }
        i += 1;
    }
    false
}

/// Exec form of `type_stage`.
fn type_stage_exec(data: &[u8], t: FileType) -> (r: (i64, i64, bool, bool))
    ensures
        r.0 == type_stage(data@, t).0,
        r.1 == type_stage(data@, t).1,
        r.2 == type_stage(data@, t).2,
        r.3 == type_stage(data@, t).3,
{
    match t {
        FileType::Jpeg => {
            if data.len() > 4 && data[0] == 0xFF && data[1] == 0xD8 {
                let tables = has_tables(data);
                let eoi_pat: [u8; 2] = [0xFF, 0xD9];
                assert(eoi_pat@ == jpeg_eoi());
                let eoi = contains_pattern(data, &eoi_pat, 0, 0, data.len() - 1);
                let dp: i64 = 10 + (if tables {
                    10
                } else {
                    0
                }) + (if eoi {
                    10
                } else {
                    -10
                });
                let dc: i64 = if tables {
                    10
                } else {
                    0
                };
                (dp, dc, !eoi, false)
            } else {
                (-30, 0, false, true)
            }
        },
        FileType::Png => {
            let sig: [u8; 4] = [0x89, 0x50, 0x4E, 0x47];
            assert(sig@ == png_signature().subrange(0, 4));
            if data.len() > 8 && crate::bytes::bytes_at_exec(data, 0, &sig) {
                (10, 0, false, false)
            } else {
                (-40, 0, false, true)
            }
        },
        FileType::Gif | FileType::Bmp => (15, 10, false, false),
        FileType::Pdf => {
            if check_pdf_eof(data) {
                (8, 5, false, false)
            } else {
                (-12, 5, true, false)
            }
        },
        FileType::Zip | FileType::Apk => (8, 5, false, false),
        FileType::Dex => {
            if data.len() > 8 && check_dex_magic(data) {
                (15, 10, false, false)
            } else {
                (0, 0, false, false)
            }
        },
        FileType::Db => {
            if data.len() >= 16 && check_sqlite_header(data) {
                (20, 15, false, false)
            } else {
                (0, 0, false, false)
            }
        },
        FileType::Mp4 | FileType::Avi | FileType::MkV | FileType::ThreeGp => (-5, 0, true, false),
        FileType::Text => (5, 10, false, false),
        _ => (0, 0, false, false),
    }
}

fn is_image(t: FileType) -> (r: bool)
    ensures
        r == is_image_type(t),
{
    match t {
        FileType::Jpeg | FileType::Png | FileType::Gif | FileType::Bmp | FileType::Tiff
        | FileType::Webp | FileType::Ico | FileType::Heic | FileType::Raw | FileType::Psd
        | FileType::Ai | FileType::Svg => true,
        _ => false,
    }
}

/// The recommendation text for a probability in tenths of a percent.
pub fn recommendation_for(p: u32) -> (s: String)
    ensures
        s@ == spec_recommendation(p as int),
{
    if p > 850 {
        String::from_str("Alta probabilidad de recuperación exitosa")
    } else if p > 650 {
        String::from_str("Buena probabilidad de recuperación")
    } else if p > 400 {
        String::from_str("Recuperación posible pero archivo puede estar fragmentado")
    } else if p > 200 {
        String::from_str("Archivo muy probablemente corrupto o fragmentado")
    } else {
        String::from_str("Baja probabilidad de recuperación")
    }
}

impl AIClassifier {
    /// The entropy analyser the classifier uses.
    pub closed spec fn spec_analyzer(&self) -> EntropyAnalyzer {
        self.entropy_analyzer
    }

    /// A new classifier, with an entropy analyser of 4 KiB blocks.
    pub fn new() -> (c: Self)
        ensures
            c.spec_analyzer().spec_block_size() == 4096,
    {
        AIClassifier { entropy_analyzer: EntropyAnalyzer::new() }
    }

    /// The entropy analyser the classifier uses (its block size for block-wise analysis).
    pub fn entropy_analyzer(&self) -> (r: &EntropyAnalyzer)
        ensures
            *r == self.spec_analyzer(),
    {
        &self.entropy_analyzer
    }

    /// Guesses the type of `data` from the signature database, then the DEX
    /// and SQLite patterns, then its entropy (over its first 2048 bytes, with
    /// encoding `entropy`) and text content; returns the type and the
    /// confidence of the guess in percent.
    pub fn guess_type(&self, data: &[u8], entropy: u64) -> (r: (FileType, u32))
        ensures
            r.0 == spec_guess_type(data@, entropy).0,
            r.1 == spec_guess_type(data@, entropy).1,
    {
        match detect_file_type(data) {
            Some(sig) => (sig.file_type, 90),
            None => {
                let dex: [u8; 8] = [0x64, 0x65, 0x78, 0x0A, 0x30, 0x33, 0x35, 0x00];
                let sqlite: [u8; 6] = [0x53, 0x51, 0x4C, 0x69, 0x74, 0x65];
                assert(dex@ == dex_pattern());
                assert(sqlite@ == sqlite_pattern());
                if crate::bytes::bytes_at_exec(data, 0, &dex) {
                    return (FileType::Dex, 90);
                }
                if crate::bytes::bytes_at_exec(data, 0, &sqlite) {
                    return (FileType::Db, 90);
                }
                if entropy < ENTROPY_0_5 {
                    return (FileType::Unknown, 10);
                }
                if data.len() > 20 {
                    let m = if data.len() < 256 {
                        data.len()
                    } else {
                        256
                    };
                    let printable = count_text(data, m);
                    assert(data@.subrange(0, m as int) =~= prefix(data@, 256));
                    if 5 * printable > 4 * m && entropy < ENTROPY_5_0 {
                        return (FileType::Text, 40);
                    }
                }
                (FileType::Unknown, 20)
            },
        }
    }

    /// Structural validation of `data` as type `t` (data of fewer than 16 bytes is never valid).
    pub fn validate_data(&self, data: &[u8], t: FileType) -> (r: bool)
        ensures
            r == spec_validate_data(data@, t),
    {
        if data.len() < 16 {
            return false;
        }
        match t {
            FileType::Jpeg => validate_jpeg(data),
            FileType::Png => validate_png(data),
            FileType::Gif => validate_gif(data),
            FileType::Bmp => {
                let m: [u8; 2] = [0x42, 0x4D];
                assert(m@ == bmp_magic());
                crate::bytes::bytes_at_exec(data, 0, &m)
            },
            FileType::Pdf => {
                let m: [u8; 5] = [0x25, 0x50, 0x44, 0x46, 0x2D];
                assert(m@ == pdf_header());
                crate::bytes::bytes_at_exec(data, 0, &m)
            },
            FileType::Apk => validate_apk(data),
            FileType::Dex => data.len() >= 12 && check_dex_magic(data),
            FileType::Db => check_sqlite_header(data),
            _ => true,
        }
    }

    /// Predicts how a recovery of `data` of type `t` will turn out.
    pub fn predict_recovery(&self, data: &[u8], t: FileType, entropy: u64, is_valid: bool) -> (r:
        RecoveryPrediction)
        ensures
            prediction_is(r, spec_predict(data@, t, entropy, is_valid)),
    {
        let (p0, c0, corrupt0): (i64, i64, bool) = if entropy < ENTROPY_0_5 {
            (20, 20, true)
        } else if entropy < ENTROPY_2_0 {
            (50, 50, false)
        } else if entropy > ENTROPY_7_9 {
            (65, 65, false)
        } else if entropy > ENTROPY_5_0 && entropy < ENTROPY_7_5 {
            (85, 85, false)
        } else {
            (80, 70, false)
        };
        let (dp, dc, frag, corrupt1) = type_stage_exec(data, t);
        let invalid = !is_valid && t != FileType::Unknown;
        let p1: i64 = p0 + dp - if invalid {
            20
        } else {
            0
        };
        let c1: i64 = c0 + dc - if invalid {
            15
        } else {
            0
        };
        let image = is_image(t);
        let p2: i64 = if image && data.len() < 5000 {
            p1 * 5
        } else if image && data.len() < 50000 {
            p1 * 8
        } else {
            p1 * 10
        };
        let probability: u32 = if p2 < 0 {
            0
        } else if p2 > 1000 {
            1000
        } else {
            p2 as u32
        };
        let c2: i64 = if c1 < 0 {
            0
        } else if c1 > 100 {
            100
        } else {
            c1
        };
        let confidence = (10 * c2) as u32;
        let recommendation = recommendation_for(probability);
        RecoveryPrediction {
            probability,
            is_fragmented: frag,
            is_corrupted: corrupt0 || corrupt1 || invalid || (image && data.len() < 5000),
            confidence,
            recommendation,
        }
    }

    /// Classifies `data`; `entropy` is the encoding of the entropy of its first 2048 bytes.
    pub fn classify(&self, data: &[u8], entropy: u64) -> (c: FileClassification)
        ensures
            classification_is(c, data@, entropy),
    {
        let (file_type, guess_confidence) = self.guess_type(data, entropy);
        let is_valid = match file_type {
            FileType::Jpeg | FileType::Png | FileType::Gif | FileType::Bmp | FileType::Pdf
            | FileType::Apk | FileType::Dex | FileType::Db => self.validate_data(data, file_type),
            _ => true,
        };
        let recovery_prediction = self.predict_recovery(data, file_type, entropy, is_valid);
        let combined = 6 * guess_confidence + 4 * (recovery_prediction.confidence / 10);
        let confidence = if combined > 1000 {
            1000
        } else {
            combined
        };
        FileClassification {
            file_type,
            confidence,
            entropy,
            is_valid,
            recovery_prediction,
        }
    }

    /// Classifies the data found at disk offset `offset` (the offset only identifies the data).
    pub fn analyze(&self, data: &[u8], offset: u64, entropy: u64) -> (c: FileClassification)
        ensures
            classification_is(c, data@, entropy),
    {
        self.classify(data, entropy)
    }

    /// Whether `data` can be carved: at least four bytes and a known signature.
    pub fn can_carve(&self, data: &[u8]) -> (r: bool)
        ensures
            r == spec_can_carve(data@),
    {
        if data.len() < 4 {
            return false;
        }
        detect_file_type(data).is_some()
    }

    /// Heuristic integrity score of `data` in percent; `entropy` is the
    /// encoding of the entropy of its first 2048 bytes.
    pub fn integrity_score(&self, data: &[u8], entropy: u64) -> (r: u32)
        ensures
            r == spec_integrity_score(data@, entropy),
    {
        if data.len() == 0 {
            return 0;
        }
        let n = data.len() as u128;
        let zeros = count_byte_value(data, 0) as u128;
        let ffs = count_byte_value(data, 0xFF) as u128;
        let mut score: u32 = if 10 * zeros > 9 * n || 10 * ffs > 9 * n {
            10
        } else if 2 * zeros > n || 2 * ffs > n {
            30
        } else {
            50
        };
        if entropy > ENTROPY_3_0 && entropy < ENTROPY_7_5 {
            score += 20;
        }
        if self.can_carve(data) {
            score += 20;
        }
        score
    }
}

impl Default for AIClassifier {
    fn default() -> (c: Self)
        ensures
            c.spec_analyzer().spec_block_size() == 4096,
    {
        Self::new()
    }
}

/// How many classifications of one file type were seen.
pub struct TypeCount {
    pub file_type: FileType,
    pub count: u64,
}

/// Statistics over classifications: how many of each type, valid and not,
/// and the sums of confidences and probabilities (tenths) from which the
/// averages follow.
pub struct ClassificationStats {
    pub total: u64,
    pub by_type: Vec<TypeCount>,
    pub total_confidence: u64,
    pub total_recoverability: u64,
    pub valid_files: u64,
    pub corrupted_files: u64,
}

/// Number of classifications of type `t` among the first `n`.
pub open spec fn count_of_type(cs: Seq<FileClassification>, t: FileType, n: int) -> int
    decreases n,
{
    if n <= 0 {
        0
    } else {
        count_of_type(cs, t, n - 1) + if cs[n - 1].file_type == t {
            1int
        } else {
            0
        }
    }
}

/// Number of valid classifications among the first `n`.
pub open spec fn count_valid(cs: Seq<FileClassification>, n: int) -> int
    decreases n,
{
    if n <= 0 {
        0
    } else {
        count_valid(cs, n - 1) + if cs[n - 1].is_valid {
            1int
        } else {
            0
        }
    }
}

/// Sum of confidences (when `conf`) or of recovery probabilities of the first `n`.
pub open spec fn sum_of(cs: Seq<FileClassification>, conf: bool, n: int) -> int
    decreases n,
{
    if n <= 0 {
        0
    } else {
        sum_of(cs, conf, n - 1) + if conf {
            cs[n - 1].confidence as int
        } else {
            cs[n - 1].recovery_prediction.probability as int
        }
    }
}

/// The counts of `stats` describe `cs`: one entry per type that occurs, none
/// twice, each with the number of classifications of its type.
pub open spec fn stats_describe(st: ClassificationStats, cs: Seq<FileClassification>) -> bool {
    &&& st.total == cs.len()
    &&& st.valid_files == count_valid(cs, cs.len() as int)
    &&& st.corrupted_files == cs.len() - count_valid(cs, cs.len() as int)
    &&& st.total_confidence == sum_of(cs, true, cs.len() as int)
    &&& st.total_recoverability == sum_of(cs, false, cs.len() as int)
    &&& forall|i: int, j: int| 0 <= i < j < st.by_type@.len() ==> st.by_type@[i].file_type != st.by_type@[j].file_type
    &&& forall|i: int| 0 <= i < st.by_type@.len() ==> #[trigger] st.by_type@[i].count == count_of_type(cs, st.by_type@[i].file_type, cs.len() as int)
    &&& forall|k: int| 0 <= k < cs.len() ==> exists|i: int| 0 <= i < st.by_type@.len() && st.by_type@[i].file_type == #[trigger] cs[k].file_type
}

proof fn lemma_sum_bound(cs: Seq<FileClassification>, conf: bool, n: int)
    requires
        0 <= n <= cs.len(),
    ensures
        0 <= sum_of(cs, conf, n) <= n * 0xFFFF_FFFF,
    decreases n,
{
    if n > 0 {
        lemma_sum_bound(cs, conf, n - 1);
    }
}

proof fn lemma_counts_bound(cs: Seq<FileClassification>, t: FileType, n: int)
    requires
        0 <= n <= cs.len(),
    ensures
        0 <= count_of_type(cs, t, n) <= n,
        0 <= count_valid(cs, n) <= n,
    decreases n,
{
    if n > 0 {
        lemma_counts_bound(cs, t, n - 1);
    }
}

/// The per-type counts of the first `i` classifications, with distinct types
/// covering every classification seen.
pub open spec fn counts_upto(by: Seq<TypeCount>, cs: Seq<FileClassification>, i: int) -> bool {
    &&& forall|a: int, b: int| 0 <= a < b < by.len() ==> by[a].file_type != by[b].file_type
    &&& forall|a: int| 0 <= a < by.len() ==> #[trigger] by[a].count == count_of_type(cs, by[a].file_type, i)
    &&& forall|k: int| 0 <= k < i ==> exists|a: int| 0 <= a < by.len() && by[a].file_type == #[trigger] cs[k].file_type
}

fn count_type(by_type: &mut Vec<TypeCount>, cs: &[FileClassification], i: usize)
    requires
        i < cs@.len() <= 0xFFFF_FFFF,
        counts_upto(old(by_type)@, cs@, i as int),
    ensures
        counts_upto(final(by_type)@, cs@, i + 1),
{
    let t = cs[i].file_type;
    let mut j: usize = 0;
    let mut pos: Option<usize> = None;
    while j < by_type.len()
        invariant
            j <= by_type@.len(),
            pos matches Some(p) ==> p < by_type@.len() && by_type@[p as int].file_type == t,
            pos is None ==> forall|a: int| 0 <= a < j ==> by_type@[a].file_type != t,
        decreases by_type@.len() - j,
    {
        if pos.is_none() && by_type[j].file_type == t {
            pos = Some(j);
        }
        j += 1;
    }
    let ghost old_by = by_type@;
    match pos {
        Some(p) => {
            proof {
                lemma_counts_bound(cs@, t, i as int);
            }
            let updated = TypeCount { file_type: t, count: by_type[p].count + 1 };
            by_type.set(p, updated);
            assert forall|a: int| 0 <= a < by_type@.len() implies #[trigger] by_type@[a].count == count_of_type(cs@, by_type@[a].file_type, i + 1) by {
                if a != p {
                    assert(by_type@[a] == old_by[a]);
                }
            }
            assert forall|k: int| 0 <= k < i + 1 implies exists|a: int| 0 <= a < by_type@.len() && by_type@[a].file_type == #[trigger] cs@[k].file_type by {
                if k < i {
                    let a0 = choose|a: int| 0 <= a < old_by.len() && old_by[a].file_type == cs@[k].file_type;
                    assert(by_type@[a0].file_type == old_by[a0].file_type);
                } else {
                    assert(by_type@[p as int].file_type == t);
                }
            }
        },
        None => {
            proof {
                assert forall|k: int| 0 <= k < i implies #[trigger] cs@[k].file_type != t by {
                    if cs@[k].file_type == t {
                        let a0 = choose|a: int| 0 <= a < old_by.len() && old_by[a].file_type == cs@[k].file_type;
                    }
                }
                lemma_count_absent(cs@, t, i as int);
            }
            by_type.push(TypeCount { file_type: t, count: 1 });
            assert forall|a: int| 0 <= a < by_type@.len() implies #[trigger] by_type@[a].count == count_of_type(cs@, by_type@[a].file_type, i + 1) by {
                if a < old_by.len() {
                    assert(by_type@[a] == old_by[a]);
                }
            }
            assert forall|k: int| 0 <= k < i + 1 implies exists|a: int| 0 <= a < by_type@.len() && by_type@[a].file_type == #[trigger] cs@[k].file_type by {
                if k < i {
                    let a0 = choose|a: int| 0 <= a < old_by.len() && old_by[a].file_type == cs@[k].file_type;
                    assert(by_type@[a0] == old_by[a0]);
                } else {
                    assert(by_type@[old_by.len() as int].file_type == t);
                }
            }
        },
    }
}

impl AIClassifier {
    /// Statistics over `classifications` (see [`stats_describe`]).
    pub fn get_statistics(&self, classifications: &[FileClassification]) -> (st: ClassificationStats)
        requires
            classifications@.len() <= 0xFFFF_FFFF,
        ensures
            stats_describe(st, classifications@),
    {
        let cs = classifications;
        let n = cs.len();
        let mut by_type: Vec<TypeCount> = Vec::new();
        let mut total_confidence: u64 = 0;
        let mut total_recoverability: u64 = 0;
        let mut valid_files: u64 = 0;
        let mut i: usize = 0;
        while i < n
            invariant
                i <= n,
                n == cs@.len(),
                n <= 0xFFFF_FFFF,
                valid_files == count_valid(cs@, i as int),
                total_confidence == sum_of(cs@, true, i as int),
                total_recoverability == sum_of(cs@, false, i as int),
                counts_upto(by_type@, cs@, i as int),
            decreases n - i,
        {
            proof {
                lemma_sum_bound(cs@, true, i as int);
                lemma_sum_bound(cs@, false, i as int);
                lemma_counts_bound(cs@, cs@[i as int].file_type, i as int);
                assert(i * 0xFFFF_FFFF + 0xFFFF_FFFF <= 0xFFFF_FFFF * 0xFFFF_FFFF + 0xFFFF_FFFF) by (nonlinear_arith)
                    requires
                        i < 0xFFFF_FFFF,
                ;
            }
            let c = &cs[i];
            total_confidence = total_confidence + c.confidence as u64;
            total_recoverability = total_recoverability + c.recovery_prediction.probability as u64;
            if c.is_valid {
                valid_files = valid_files + 1;
            }
            count_type(&mut by_type, cs, i);
            i += 1;
        }
        proof {
            lemma_counts_bound(cs@, FileType::Unknown, n as int);
        }
        ClassificationStats {
            total: n as u64,
            by_type,
            total_confidence,
            total_recoverability,
            valid_files,
            corrupted_files: n as u64 - valid_files,
        }
    }
}

/// A type absent from the first `n` classifications has no count there.
proof fn lemma_count_absent(cs: Seq<FileClassification>, t: FileType, n: int)
    requires
        0 <= n <= cs.len(),
        forall|k: int| 0 <= k < n ==> #[trigger] cs[k].file_type != t,
    ensures
        count_of_type(cs, t, n) == 0,
    decreases n,
{
    if n > 0 {
        lemma_count_absent(cs, t, n - 1);
    }
}

} // verus!
