//! Entropy classes and byte statistics.
//!
//! The Shannon entropy of a window of bytes is a binary64 number computed
//! outside this crate from the byte frequencies that [`byte_frequencies`]
//! counts. It enters the library as the bit pattern of its IEEE-754 binary64
//! encoding. Entropy is never negative, and non-negative binary64 numbers are
//! ordered exactly as their encodings read as unsigned integers, so comparing
//! encodings (`<`, `>`) compares entropies without any rounding.

use vstd::prelude::*;

verus! {

/// Encoding of the binary64 number nearest 0.1.
pub const ENTROPY_0_1: u64 = 0x3FB9_9999_9999_999A;

/// Encoding of 0.5.
pub const ENTROPY_0_5: u64 = 0x3FE0_0000_0000_0000;

/// Encoding of 2.0.
pub const ENTROPY_2_0: u64 = 0x4000_0000_0000_0000;

/// Encoding of 3.0.
pub const ENTROPY_3_0: u64 = 0x4008_0000_0000_0000;

/// Encoding of 4.0.
pub const ENTROPY_4_0: u64 = 0x4010_0000_0000_0000;

/// Encoding of 5.0.
pub const ENTROPY_5_0: u64 = 0x4014_0000_0000_0000;

/// Encoding of 6.0.
pub const ENTROPY_6_0: u64 = 0x4018_0000_0000_0000;

/// Encoding of 7.5.
pub const ENTROPY_7_5: u64 = 0x401E_0000_0000_0000;

/// Encoding of the binary64 number nearest 7.8.
pub const ENTROPY_7_8: u64 = 0x401F_3333_3333_3333;

/// Encoding of the binary64 number nearest 7.9.
pub const ENTROPY_7_9: u64 = 0x401F_9999_9999_999A;

/// Number of leading bytes over which entropy is computed for classification.
pub const ENTROPY_WINDOW: usize = 2048;

/// Classes of entropy.
#[derive(Clone, Copy, Debug, PartialEq, Eq, Structural)]
pub enum EntropyClass {
    /// Below 2.0: very repetitive data.
    VeryLow,
    /// From 2.0 to 4.0: simple data or text.
    Low,
    /// From 4.0 to 6.0: structured data.
    Medium,
    /// From 6.0 to 7.5: complex data.
    High,
    /// 7.5 and above: encrypted or heavily compressed data.
    VeryHigh,
}

/// The class of an entropy value given by its encoding.
pub open spec fn spec_classify_entropy(entropy: u64) -> EntropyClass {
    if entropy < ENTROPY_2_0 {
        EntropyClass::VeryLow
    } else if entropy < ENTROPY_4_0 {
        EntropyClass::Low
    } else if entropy < ENTROPY_6_0 {
        EntropyClass::Medium
    } else if entropy < ENTROPY_7_5 {
        EntropyClass::High
    } else {
        EntropyClass::VeryHigh
    }
}

/// Classifies an entropy value given by its encoding.
pub fn classify_entropy(entropy: u64) -> (c: EntropyClass)
    ensures
        c == spec_classify_entropy(entropy),
{
    if entropy < ENTROPY_2_0 {
        EntropyClass::VeryLow
    } else if entropy < ENTROPY_4_0 {
        EntropyClass::Low
    } else if entropy < ENTROPY_6_0 {
        EntropyClass::Medium
    } else if entropy < ENTROPY_7_5 {
        EntropyClass::High
    } else {
        EntropyClass::VeryHigh
    }
}

/// Long description of an entropy class.
pub open spec fn spec_description(c: EntropyClass) -> Seq<char> {
    match c {
        EntropyClass::VeryLow => "Muy repetitivo (posiblemente vacío o muy comprimido)"@,
        EntropyClass::Low => "Datos simples (texto, código fuente)"@,
        EntropyClass::Medium => "Datos estructurados (ejecutables, documentos)"@,
        EntropyClass::High => "Datos complejos (imágenes, audio)"@,
        EntropyClass::VeryHigh => "Posiblemente encriptado o muy comprimido"@,
    }
}

/// Short label of an entropy class.
pub open spec fn spec_ui_label(c: EntropyClass) -> Seq<char> {
    match c {
        EntropyClass::VeryLow => "Muy Simple"@,
        EntropyClass::Low => "Simple"@,
        EntropyClass::Medium => "Estructurado"@,
        EntropyClass::High => "Complejo"@,
        EntropyClass::VeryHigh => "Comprimido/Cifrado"@,
    }
}

/// Emoji of an entropy class.
pub open spec fn spec_ui_emoji(c: EntropyClass) -> Seq<char> {
    match c {
        EntropyClass::VeryLow => "📄"@,
        EntropyClass::Low => "📝"@,
        EntropyClass::Medium => "📦"@,
        EntropyClass::High => "🖼️"@,
        EntropyClass::VeryHigh => "🔒"@,
    }
}

impl EntropyClass {
    /// Long description of the class.
    pub fn description(&self) -> (r: &'static str)
        ensures
            r@ == spec_description(*self),
    {
        match self {
            EntropyClass::VeryLow => "Muy repetitivo (posiblemente vacío o muy comprimido)",
            EntropyClass::Low => "Datos simples (texto, código fuente)",
            EntropyClass::Medium => "Datos estructurados (ejecutables, documentos)",
            EntropyClass::High => "Datos complejos (imágenes, audio)",
            EntropyClass::VeryHigh => "Posiblemente encriptado o muy comprimido",
        }
    }

    /// Short label of the class, for display.
    pub fn ui_label(&self) -> (r: &'static str)
        ensures
            r@ == spec_ui_label(*self),
    {
        match self {
            EntropyClass::VeryLow => "Muy Simple",
            EntropyClass::Low => "Simple",
            EntropyClass::Medium => "Estructurado",
            EntropyClass::High => "Complejo",
            EntropyClass::VeryHigh => "Comprimido/Cifrado",
        }
    }

    /// Emoji of the class, for display.
    pub fn ui_emoji(&self) -> (r: &'static str)
        ensures
            r@ == spec_ui_emoji(*self),
    {
        match self {
            EntropyClass::VeryLow => "📄",
            EntropyClass::Low => "📝",
            EntropyClass::Medium => "📦",
            EntropyClass::High => "🖼️",
            EntropyClass::VeryHigh => "🔒",
        }
    }
}

/// Short label for an entropy value given by its encoding.
pub fn entropy_description(entropy: u64) -> (r: &'static str)
    ensures
        r@ == spec_ui_label(spec_classify_entropy(entropy)),
{
    classify_entropy(entropy).ui_label()
}

/// Emoji for an entropy value given by its encoding.
pub fn entropy_emoji(entropy: u64) -> (r: &'static str)
    ensures
        r@ == spec_ui_emoji(spec_classify_entropy(entropy)),
{
    classify_entropy(entropy).ui_emoji()
}

/// Number of occurrences of byte `v` in `d`.
pub open spec fn count_byte(d: Seq<u8>, v: u8) -> nat
    decreases d.len(),
{
    if d.len() == 0 {
        0
    } else {
        count_byte(d.drop_last(), v) + if d.last() == v {
            1nat
        } else {
            0nat
        }
    }
}

/// A byte occurs at most as often as the sequence is long.
pub proof fn lemma_count_byte_bound(d: Seq<u8>, v: u8)
    ensures
        count_byte(d, v) <= d.len(),
    decreases d.len(),
{
    if d.len() > 0 {
        lemma_count_byte_bound(d.drop_last(), v);
    }
}

/// How often each byte value occurs in `data`: entry `v` counts byte `v`.
pub fn byte_frequencies(data: &[u8]) -> (freq: Vec<u64>)
    ensures
        freq@.len() == 256,
        forall|v: u8| #[trigger] freq@[v as int] == count_byte(data@, v),
{
    let mut freq: Vec<u64> = Vec::new();
    let mut k: usize = 0;
    while k < 256
        invariant
            k <= 256,
            freq@.len() == k,
            forall|j: int| 0 <= j < k ==> freq@[j] == 0,
        decreases 256 - k,
    {
        freq.push(0);
        k += 1;
    }
    let mut i: usize = 0;
    while i < data.len()
        invariant
            i <= data@.len(),
            freq@.len() == 256,
            forall|v: u8| #[trigger] freq@[v as int] == count_byte(data@.subrange(0, i as int), v),
        decreases data@.len() - i,
    {
        let b = data[i];
        proof {
            assert(data@.subrange(0, i + 1).drop_last() =~= data@.subrange(0, i as int));
            lemma_count_byte_bound(data@.subrange(0, i as int), b);
        }
        let c = freq[b as usize];
        freq.set(b as usize, c + 1);
        i += 1;
        assert forall|v: u8| #[trigger] freq@[v as int] == count_byte(data@.subrange(0, i as int), v) by {
            assert(data@.subrange(0, i as int).drop_last() =~= data@.subrange(0, i - 1));
        }
    }
    assert(data@.subrange(0, data@.len() as int) =~= data@);
    freq
}

/// The leading bytes of `d` over which entropy is computed.
pub open spec fn entropy_window(d: Seq<u8>) -> Seq<u8> {
    if d.len() > ENTROPY_WINDOW {
        d.subrange(0, ENTROPY_WINDOW as int)
    } else {
        d
    }
}

/// The leading bytes of `data` (at most 2048) over which entropy is computed.
pub fn entropy_window_of(data: &[u8]) -> (w: &[u8])
    ensures
        w@ == entropy_window(data@),
{
    if data.len() > ENTROPY_WINDOW {
        vstd::slice::slice_subrange(data, 0, ENTROPY_WINDOW)
    } else {
        data
    }
}

/// Entropy analyser; entropy is computed block by block over blocks of `block_size` bytes.
pub struct EntropyAnalyzer {
    block_size: usize,
}

impl EntropyAnalyzer {
    /// Size of the blocks of a block-wise analysis.
    pub closed spec fn spec_block_size(&self) -> nat {
        self.block_size as nat
    }

    /// A new analyser with 4 KiB blocks.
    pub fn new() -> (a: Self)
        ensures
            a.spec_block_size() == 4096,
    {
        EntropyAnalyzer { block_size: 4096 }
    }

    /// Size of the blocks of a block-wise analysis.
    pub fn block_size(&self) -> (r: usize)
        ensures
            r == self.spec_block_size(),
    {
        self.block_size
    }

    /// Whether data whose entropy (over its first 2048 bytes) is `entropy`
    /// looks encrypted or heavily compressed: entropy above 7.5.
    pub fn is_encrypted_or_compressed(&self, entropy: u64) -> (r: bool)
        ensures
            r == (entropy > ENTROPY_7_5),
    {
        entropy > ENTROPY_7_5
    }
}

impl Default for EntropyAnalyzer {
    fn default() -> (a: Self)
        ensures
            a.spec_block_size() == 4096,
    {
        Self::new()
    }
}

} // verus!
