//! Recovery decisions: how much to read for a found file, where its data
//! really ends, whether recovered data looks valid, and how recovered files
//! are named and grouped.

use vstd::prelude::*;
use crate::bytes::{any_in, bytes_at, first_match, last_match, le_u32, be_u32, pattern_at, read_le_u32, read_be_u32, bytes_at_exec, contains_pattern};
use crate::scanner::{views, FoundFile, FoundFileView};
use crate::signatures::{sat_sub, spec_category, spec_extension, spec_extension_upper, FileType};
use crate::text::{lowercase_of, to_lowercase, push_hex_lower, push_hex_upper, push_str, spec_hex_lower, spec_hex_upper};

verus! {

/// Name of the result of `std`'s `DefaultHasher` (created with `new`) fed a
/// byte slice, within one build of the program (see [`default_hash`]).
pub uninterp spec fn default_hash_of(data: Seq<u8>) -> u64;

/// `BuildHasher::hash_one` with the builder of `std`'s `DefaultHasher`: a
/// hasher made by `DefaultHasher::default` (the same as `new`) hashes `data`
/// (as a slice, length then bytes) and returns `finish()`. Trusted: the
/// result is named by [`default_hash_of`], which rests on std's promise that
/// every hasher made by `DefaultHasher::new` is the same (it is not seeded
/// per process); nothing more is claimed about the hash function. std
/// documents that its algorithm may differ between targets and releases, so
/// the name stands for the value within one build of the program, not for a
/// portable one.
#[verifier::external_body]
fn default_hash(data: &[u8]) -> (h: u64)
    ensures
        h == default_hash_of(data@),
{
    let builder = std::hash::BuildHasherDefault::<std::collections::hash_map::DefaultHasher>::default();
    std::hash::BuildHasher::hash_one(&builder, data)
}

/// The bytes hashed for duplicate detection: the first 4096 bytes.
pub open spec fn hashed_prefix(d: Seq<u8>) -> Seq<u8> {
    if d.len() > 4096 {
        d.subrange(0, 4096)
    } else {
        d
    }
}

/// Content hash of `data` (its first 4 KiB) for duplicate detection, in lower-case hexadecimal.
pub fn calculate_content_hash(data: &[u8]) -> (s: String)
    ensures
        s@ == spec_hex_lower(default_hash_of(hashed_prefix(data@)) as nat),
{
    let hash_data = if data.len() > 4096 {
        vstd::slice::slice_subrange(data, 0, 4096)
    } else {
        data
    };
    let h = default_hash(hash_data);
    let mut s = String::new();
    push_hex_lower(&mut s, h);
    assert(s@ =~= spec_hex_lower(h as nat));
    s
}

/// Every byte of `d` is zero.
pub open spec fn all_zero(d: Seq<u8>) -> bool {
    forall|i: int| 0 <= i < d.len() ==> d[i] == 0
}


/// Whether some byte of `data` is non-zero.
pub fn has_nonzero_byte(data: &[u8]) -> (r: bool)
    ensures
        r == !all_zero(data@),
{
    let mut i: usize = 0;
    while i < data.len()
        invariant
            i <= data@.len(),
            forall|k: int| 0 <= k < i ==> data@[k] == 0,
        decreases data@.len() - i,
    {
        if data[i] != 0 {
            return true;
        }
        i += 1;
    }
    false
}

/// How many bytes to read to recover a file: its size estimate when non-zero,
/// otherwise a per-type maximum.
pub open spec fn spec_read_size(estimated_size: u64, t: FileType) -> u64 {
    if estimated_size > 0 {
        estimated_size
    } else {
        match t {
            FileType::Jpeg | FileType::Png | FileType::Gif | FileType::Webp => 26214400,
            FileType::Bmp | FileType::Tiff | FileType::Raw | FileType::Psd => 104857600,
            FileType::Mp4 | FileType::Avi | FileType::MkV | FileType::Mov | FileType::Wmv => 1073741824,
            FileType::Mp3 | FileType::Wav | FileType::Flac | FileType::Ogg => 52428800,
            FileType::Pdf | FileType::Doc | FileType::Docx | FileType::Xls | FileType::Xlsx => 52428800,
            FileType::Zip | FileType::Rar | FileType::SevenZip => 524288000,
            FileType::Exe | FileType::Msi => 209715200,
            FileType::Unknown => 10485760,
            _ => 52428800,
        }
    }
}

/// An MP4 `moov` atom type at `i`, far enough from the end to read its header.
pub open spec fn moov_at(d: Seq<u8>) -> spec_fn(int) -> bool {
    |i: int| bytes_at(d, i, seq![0x6Du8, 0x6Fu8, 0x6Fu8, 0x76u8]) && i + 8 < d.len()
}

/// `v`, or `hi` when larger.
pub open spec fn min_int(v: int, hi: int) -> int {
    if v < hi {
        v
    } else {
        hi
    }
}

/// Inputs on which the end search terminates without panicking: a PDF search
/// always slices past the end of non-empty data, and an MP4 whose first `moov`
/// lies in the first four bytes makes the atom-size read underflow.
pub open spec fn file_end_defined(d: Seq<u8>, t: FileType) -> bool {
    match t {
        FileType::Pdf => d.len() == 0,
        FileType::Mp4 | FileType::Mov => match first_match(moov_at(d), 0, sat_sub(d.len() as int, 4)) {
            Some(i) => i >= 4,
            None => true,
        },
        _ => true,
    }
}

/// Where recovered data of type `t` really ends. Matroska and WebM data is
/// kept whole: the end search looks for a cluster after the last cluster,
/// which it cannot find.
pub open spec fn spec_file_end(d: Seq<u8>, t: FileType) -> int {
    let len = d.len() as int;
    match t {
        FileType::Jpeg => match first_match(pattern_at(d, seq![0xFFu8, 0xD9u8], 0), 0, sat_sub(len, 1)) {
            Some(i) => i + 2,
            None => len,
        },
        FileType::Png => match first_match(pattern_at(d, crate::classifier::png_iend(), 0), 0, sat_sub(len, 4)) {
            Some(i) => min_int(i + 12, len),
            None => len,
        },
        FileType::Gif => match first_match(pattern_at(d, seq![0x00u8, 0x3Bu8], 0), 0, sat_sub(len, 1)) {
            Some(i) => i + 2,
            None => len,
        },
        FileType::Bmp => if len >= 14 && 0 < le_u32(d, 2) <= len {
            le_u32(d, 2)
        } else {
            len
        },
        FileType::Mp4 | FileType::Mov => match first_match(moov_at(d), 0, sat_sub(len, 4)) {
            Some(i) => min_int(i - 4 + be_u32(d, i - 4), len),
            None => len,
        },
        FileType::Avi => if len >= 12 && 0 < le_u32(d, 4) <= len {
            le_u32(d, 4)
        } else {
            len
        },
        FileType::Mp3 => match last_match(crate::signatures::mp3_sync_at(d), 0, sat_sub(len, 1)) {
            Some(i) => min_int(i + 4096, len),
            None => len,
        },
        FileType::Wav => if len >= 44 && 0 < le_u32(d, 4) <= len {
            le_u32(d, 4)
        } else {
            len
        },
        _ => len,
    }
}

fn first_pattern(data: &[u8], pat: &[u8], hi: usize) -> (r: Option<usize>)
    ensures
        r matches Some(i) ==> i < hi && first_match(pattern_at(data@, pat@, 0), 0, hi as int) == Some(i as int),
        r is None ==> first_match(pattern_at(data@, pat@, 0), 0, hi as int) is None,
{
    let mut i: usize = 0;
    while i < hi
        invariant
            i <= hi,
            first_match(pattern_at(data@, pat@, 0), 0, hi as int) == first_match(pattern_at(data@, pat@, 0), i as int, hi as int),
        decreases hi - i,
    {
        if bytes_at_exec(data, i, pat) {
            return Some(i);
        }
        i += 1;
    }
    None
}

fn mp4_end(data: &[u8], t: FileType) -> (end: usize)
    requires
        t == FileType::Mp4 || t == FileType::Mov,
        file_end_defined(data@, t),
        data@.len() <= 0x7FFF_FFFF_FFFF_FFFF,
    ensures
        end == spec_file_end(data@, t),
{
    let len = data.len();
    let hi = if len >= 4 {
        len - 4
    } else {
        0
    };
    let m: [u8; 4] = [0x6D, 0x6F, 0x6F, 0x76];
    assert(m@ == seq![0x6Du8, 0x6Fu8, 0x6Fu8, 0x76u8]);
    let mut i: usize = 0;
    while i < hi
        invariant
            i <= hi,
            hi == sat_sub(data@.len() as int, 4),
            len == data@.len(),
            len <= 0x7FFF_FFFF_FFFF_FFFF,
            m@ == seq![0x6Du8, 0x6Fu8, 0x6Fu8, 0x76u8],
            first_match(moov_at(data@), 0, hi as int) == first_match(moov_at(data@), i as int, hi as int),
            file_end_defined(data@, t),
            t == FileType::Mp4 || t == FileType::Mov,
        decreases hi - i,
    {
        if bytes_at_exec(data, i, &m) && len - i > 8 {
            assert(moov_at(data@)(i as int));
            assert(first_match(moov_at(data@), 0, hi as int) == Some(i as int));
            let atom_size = read_be_u32(data, i - 4);
            let stop = (i - 4) as u64 + atom_size;
            return if stop < len as u64 {
                stop as usize
            } else {
                len
            };
        }
        i += 1;
    }
    len
}

fn mp3_end(data: &[u8]) -> (end: usize)
    requires
        data@.len() >= 1,
    ensures
        end == spec_file_end(data@, FileType::Mp3),
{
    let len = data.len();
    let mut last: Option<usize> = None;
    let mut i: usize = 0;
    let hi = len - 1;
    while i < hi
        invariant
            i <= hi,
            hi == data@.len() - 1,
            len == data@.len(),
            last matches Some(k) ==> k < i && last_match(crate::signatures::mp3_sync_at(data@), 0, i as int) == Some(k as int),
            last is None ==> last_match(crate::signatures::mp3_sync_at(data@), 0, i as int) is None,
        decreases hi - i,
    {
        if data[i] == 0xFF && (data[i + 1] & 0xE0) == 0xE0 {
            last = Some(i);
        }
        i += 1;
    }
    assert(sat_sub(len as int, 1) == hi);
    assert(i == hi);
    match last {
        Some(pos) => if len - pos < 4096 {
            len
        } else {
            pos + 4096
        },
        None => len,
    }
}

/// The data of a recovered file of type `t`, cut where the file really ends.
pub fn find_file_end(data: &[u8], t: FileType) -> (r: Vec<u8>)
    requires
        file_end_defined(data@, t),
        data@.len() <= 0x7FFF_FFFF_FFFF_FFFF,
    ensures
        r@ == data@.subrange(0, spec_file_end(data@, t)),
{
    let len = data.len();
    let end: usize = if len == 0 {
        0
    } else {
        match t {
            FileType::Jpeg => {
                let p: [u8; 2] = [0xFF, 0xD9];
                assert(p@ == seq![0xFFu8, 0xD9u8]);
                let r = match first_pattern(data, &p, len - 1) {
                    Some(i) => i + 2,
                    None => len,
                };
                assert(t == FileType::Jpeg);
                assert(sat_sub(len as int, 1) == len - 1);
                assert(pattern_at(data@, p@, 0) == pattern_at(data@, seq![0xFFu8, 0xD9u8], 0));
                assert(r == spec_file_end(data@, t));
                r
            },
            FileType::Png => {
                let p: [u8; 4] = [0x49, 0x45, 0x4E, 0x44];
                assert(p@ == crate::classifier::png_iend());
                let hi = if len >= 4 {
                    len - 4
                } else {
                    0
                };
                match first_pattern(data, &p, hi) {
                    Some(i) => if len - i < 12 {
                        len
                    } else {
                        i + 12
                    },
                    None => len,
                }
            },
            FileType::Gif => {
                let p: [u8; 2] = [0x00, 0x3B];
                assert(p@ == seq![0x00u8, 0x3Bu8]);
                match first_pattern(data, &p, len - 1) {
                    Some(i) => i + 2,
                    None => len,
                }
            },
            FileType::Bmp => {
                if len >= 14 {
                    let size = read_le_u32(data, 2);
                    if size > 0 && size <= len as u64 {
                        size as usize
                    } else {
                        len
                    }
                } else {
                    len
                }
            },
            FileType::Mp4 | FileType::Mov => mp4_end(data, t),
            FileType::Avi => {
                if len >= 12 {
                    let size = read_le_u32(data, 4);
                    if size > 0 && size <= len as u64 {
                        size as usize
                    } else {
                        len
                    }
                } else {
                    len
                }
            },
            FileType::Mp3 => mp3_end(data),
            FileType::Wav => {
                if len >= 44 {
                    let size = read_le_u32(data, 4);
                    if size > 0 && size <= len as u64 {
                        size as usize
                    } else {
                        len
                    }
                } else {
                    len
                }
            },
            _ => len,
        }
    };
    assert(end == spec_file_end(data@, t));
    let head = vstd::slice::slice_subrange(data, 0, end);
    vstd::slice::slice_to_vec(head)
}


/// How many bytes to read to recover `found_file` (see [`spec_read_size`]).
pub fn read_size_for(found_file: &FoundFile) -> (r: u64)
    ensures
        r == spec_read_size(found_file.estimated_size, found_file.file_type),
{
    if found_file.estimated_size > 0 {
        return found_file.estimated_size;
    }
    match found_file.file_type {
        FileType::Jpeg | FileType::Png | FileType::Gif | FileType::Webp => 26214400,
        FileType::Bmp | FileType::Tiff | FileType::Raw | FileType::Psd => 104857600,
        FileType::Mp4 | FileType::Avi | FileType::MkV | FileType::Mov | FileType::Wmv => 1073741824,
        FileType::Mp3 | FileType::Wav | FileType::Flac | FileType::Ogg => 52428800,
        FileType::Pdf | FileType::Doc | FileType::Docx | FileType::Xls | FileType::Xlsx => 52428800,
        FileType::Zip | FileType::Rar | FileType::SevenZip => 524288000,
        FileType::Exe | FileType::Msi => 209715200,
        FileType::Unknown => 10485760,
        _ => 52428800,
    }
}

/// Name given to a recovered file: upper-case extension, `_0x`, the offset in
/// upper-case hexadecimal, a dot and the extension (`JPG_0x1A00.jpg`).
pub open spec fn spec_recovered_file_name(offset: u64, t: FileType) -> Seq<char> {
    spec_extension_upper(t) + seq!['_', '0', 'x'] + spec_hex_upper(offset as nat) + seq!['.'] + spec_extension(t)
}

/// The name under which `found_file` is recovered (see [`spec_recovered_file_name`]).
pub fn recovered_file_name(found_file: &FoundFile) -> (s: String)
    ensures
        s@ == spec_recovered_file_name(found_file.offset, found_file.file_type),
{
    let mut s = String::new();
    push_str(&mut s, found_file.file_type.extension_upper());
    push_str(&mut s, "_0x");
    push_hex_upper(&mut s, found_file.offset);
    push_str(&mut s, ".");
    push_str(&mut s, found_file.file_type.extension());
    proof {
        reveal_strlit("_0x");
        reveal_strlit(".");
    }
    assert(s@ =~= spec_recovered_file_name(found_file.offset, found_file.file_type));
    s
}

/// Files up to this size are read with a single request.
pub const SINGLE_READ_LIMIT: u64 = 1048576;

/// Size of each read when a file is copied in pieces.
pub const COPY_CHUNK_SIZE: u64 = 4194304;

/// Progress of copying a found file off the disk, in pieces: the next read
/// starts where the bytes written so far end.
pub struct CopyState {
    start: u64,
    total: u64,
    written: u64,
    finished: bool,
}

/// One step of a copy: read `len` bytes at `offset`, or stop.
pub enum CopyStep {
    Read { offset: u64, len: u64 },
    Done,
}

/// Abstract state of a copy.
pub struct CopyView {
    /// Disk offset of the first byte.
    pub start: u64,
    /// Bytes to copy.
    pub total: u64,
    /// Bytes copied so far.
    pub written: u64,
    /// A read failed or fell short.
    pub finished: bool,
}

impl View for CopyState {
    type V = CopyView;

    closed spec fn view(&self) -> CopyView {
        CopyView { start: self.start, total: self.total, written: self.written, finished: self.finished }
    }
}

/// The copy has nothing more to read.
pub open spec fn copy_done(c: CopyView) -> bool {
    c.finished || c.written >= c.total
}

/// The step a copy in state `c` takes next: at most [`COPY_CHUNK_SIZE`]
/// bytes where the copied bytes end, or stop.
pub open spec fn spec_next_step(c: CopyView) -> CopyStep {
    if copy_done(c) {
        CopyStep::Done
    } else {
        CopyStep::Read {
            offset: (c.start + c.written) as u64,
            len: if c.total - c.written < COPY_CHUNK_SIZE {
                (c.total - c.written) as u64
            } else {
                COPY_CHUNK_SIZE
            },
        }
    }
}

/// The state after a read of `requested` bytes that gave `got` bytes
/// (`None`: the read failed): a failed, empty or short read ends the copy.
pub open spec fn spec_record(c: CopyView, requested: u64, got: Option<u64>) -> CopyView {
    match got {
        Some(n) => CopyView { written: (c.written + n) as u64, finished: n == 0 || n < requested, ..c },
        None => CopyView { finished: true, ..c },
    }
}

impl CopyState {
    /// Well-formedness: never more written than asked for, and the read
    /// position stays a valid offset.
    pub closed spec fn wf(&self) -> bool {
        &&& self.written <= self.total
        &&& self.start + self.total <= u64::MAX
    }

    /// Facts of well-formedness.
    pub proof fn lemma_wf(&self)
        requires
            self.wf(),
        ensures
            self@.written <= self@.total,
            self@.start + self@.total <= u64::MAX,
    {
    }

    /// A copy of `total` bytes starting at disk offset `start`.
    pub fn new(start: u64, total: u64) -> (c: CopyState)
        requires
            start + total <= u64::MAX,
        ensures
            c.wf(),
            c@ == (CopyView { start, total, written: 0, finished: false }),
    {
        CopyState { start, total, written: 0, finished: false }
    }

    /// Bytes copied so far.
    pub fn written(&self) -> (r: u64)
        ensures
            r == self@.written,
    {
        self.written
    }

    /// The next step: read at most [`COPY_CHUNK_SIZE`] bytes where the copied
    /// bytes end, or stop once everything was read or a read fell short.
    pub fn next_step(&self) -> (step: CopyStep)
        requires
            self.wf(),
        ensures
            step == spec_next_step(self@),
    {
        if self.finished || self.written >= self.total {
            return CopyStep::Done;
        }
        let remaining = self.total - self.written;
        let len = if remaining < COPY_CHUNK_SIZE {
            remaining
        } else {
            COPY_CHUNK_SIZE
        };
        CopyStep::Read { offset: self.start + self.written, len }
    }

    /// Records the outcome of a read of `requested` bytes: `None` for a failed
    /// read, or the number of bytes obtained (and written out). A failed,
    /// empty or short read ends the copy.
    pub fn record(&mut self, requested: u64, got: Option<u64>)
        requires
            old(self).wf(),
            !copy_done(old(self)@),
            requested <= old(self)@.total - old(self)@.written,
            got matches Some(n) ==> n <= requested,
        ensures
            final(self).wf(),
            final(self)@ == spec_record(old(self)@, requested, got),
    {
        match got {
            None => {
                self.finished = true;
            },
            Some(n) => {
                self.written = self.written + n;
                self.finished = n == 0 || n < requested;
            },
        }
    }
}

/// Whether a copy of `total` bytes is attempted first with a single read.
pub fn single_read(total: u64) -> (r: bool)
    ensures
        r == (total <= SINGLE_READ_LIMIT),
{
    total <= SINGLE_READ_LIMIT
}


/// The output directory after setting it to `path` when it was `current`.
pub open spec fn spec_set_dir(current: Seq<char>, path: Seq<char>) -> Seq<char> {
    path
}

/// The output directory after setting it to each of `paths` in turn,
/// starting from `start`.
pub open spec fn dir_after_sets(start: Seq<char>, paths: Seq<Seq<char>>) -> Seq<char>
    decreases paths.len(),
{
    if paths.len() == 0 {
        start
    } else {
        spec_set_dir(dir_after_sets(start, paths.drop_last()), paths.last())
    }
}

/// Engine that recovers found files into an output directory, one
/// subdirectory per category.
pub struct RecoveryEngine {
    output_dir: String,
}

impl RecoveryEngine {
    /// The output directory.
    pub closed spec fn spec_output_dir(&self) -> Seq<char> {
        self.output_dir@
    }

    /// An engine writing into `output_dir` (the directory itself is created by the caller).
    pub fn new(output_dir: &str) -> (e: RecoveryEngine)
        ensures
            e.spec_output_dir() == output_dir@,
    {
        RecoveryEngine { output_dir: output_dir.to_owned() }
    }

    /// The output directory.
    pub fn output_dir(&self) -> (r: &str)
        ensures
            r@ == self.spec_output_dir(),
    {
        self.output_dir.as_str()
    }

    /// Changes the output directory (created by the caller).
    pub fn set_output_dir(&mut self, path: &str)
        ensures
            final(self).spec_output_dir() == spec_set_dir(old(self).spec_output_dir(), path@),
    {
        self.output_dir = path.to_owned();
    }

    /// How many bytes to read to recover `found_file`.
    pub fn calculate_read_size(&self, found_file: &FoundFile) -> (r: u64)
        ensures
            r == spec_read_size(found_file.estimated_size, found_file.file_type),
    {
        read_size_for(found_file)
    }

    /// Where the data of a recovered file of type `t` really ends.
    pub fn find_file_end(&self, data: &[u8], t: FileType) -> (r: Vec<u8>)
        requires
            file_end_defined(data@, t),
            data@.len() <= 0x7FFF_FFFF_FFFF_FFFF,
        ensures
            r@ == data@.subrange(0, spec_file_end(data@, t)),
    {
        find_file_end(data, t)
    }


    /// Groups recovered file paths by the category of their extension.
    pub fn organize_by_type(&self, files: &[String]) -> (groups: Vec<CategoryGroup>)
        ensures
            exists|cats: Seq<Option<Seq<char>>>|
                cats.len() == files@.len() && (forall|k: int|
                    0 <= k < cats.len() && #[trigger] cats[k] is Some ==> is_category_name(cats[k]->0))
                    && (forall|k: int| 0 <= k < cats.len() && known_path(#[trigger] files@[k]@)
                        ==> cats[k] == spec_path_category(files@[k]@))
                    && grouping(groups_view(groups@), paths_view(files@), cats),
    {
        let mut cats: Vec<Option<String>> = Vec::new();
        let mut k: usize = 0;
        while k < files.len()
            invariant
                k <= files@.len(),
                cats@.len() == k,
                forall|j: int| 0 <= j < k && #[trigger] cats@[j] is Some ==> is_category_name(cats@[j]->0@),
                forall|j: int| 0 <= j < k && known_path(#[trigger] files@[j]@)
                    ==> options_view(cats@)[j] == spec_path_category(files@[j]@),
            decreases files@.len() - k,
        {
            let c = match path_extension(files[k].as_str()) {
                Some(ext) => {
                    let name = category_of_extension(ext.as_str());
                    Some(name.to_owned())
                },
                None => None,
            };
            cats.push(c);
            k += 1;
        }
        let groups = group_by_category(files, &cats);
        assert(options_view(cats@).len() == files@.len());
        assert(forall|j: int| 0 <= j < files@.len() && known_path(#[trigger] files@[j]@)
            ==> options_view(cats@)[j] == spec_path_category(files@[j]@));
        assert(forall|j: int| 0 <= j < files@.len() && #[trigger] options_view(cats@)[j] is Some ==> is_category_name(options_view(cats@)[j]->0));
        groups
    }
}

/// A plain file name: not empty, not `.` or `..`, and holding no path
/// separator or drive prefix of any platform (`/`, `\`, `:`).
pub open spec fn plain_file_name(p: Seq<char>) -> bool {
    p.len() > 0 && p != "."@ && p != ".."@ && !p.contains('/') && !p.contains('\\') && !p.contains(':')
}

/// The extension of a plain file name: what follows its last dot, unless
/// there is no dot or the only dot begins the name.
pub open spec fn spec_name_extension(p: Seq<char>) -> Option<Seq<char>> {
    match crate::text::last_index_of(p, '.') {
        Some(k) => if k > 0 { Some(p.subrange(k + 1, p.len() as int)) } else { None },
        None => None,
    }
}

/// The category a file name gets, if it has an extension.
pub open spec fn spec_name_category(p: Seq<char>) -> Option<Seq<char>> {
    match spec_name_extension(p) {
        Some(e) => Some(spec_extension_category(lowercase_of(e))),
        None => None,
    }
}

/// The text after the last `/` of a path (the whole path when it has none).
pub open spec fn last_segment(p: Seq<char>) -> Seq<char> {
    match crate::text::last_index_of(p, '/') {
        Some(k) => p.subrange(k + 1, p.len() as int),
        None => p,
    }
}

/// A path whose file name is its last `/`-separated segment on every
/// platform: it holds no `\` and no `:` (no other separator and no drive
/// prefix), does not begin with `//` (a network-share prefix on Windows),
/// and its last segment is a plain file name (so the path does not end in
/// `/`, `.` or `..`).
pub open spec fn simple_path(p: Seq<char>) -> bool {
    &&& !p.contains('\\')
    &&& !p.contains(':')
    &&& !(p.len() >= 2 && p[0] == '/' && p[1] == '/')
    &&& plain_file_name(last_segment(p))
}

/// The text after the last `\` of a path (the whole path when it has none).
pub open spec fn last_backslash_segment(p: Seq<char>) -> Seq<char> {
    match crate::text::last_index_of(p, '\\') {
        Some(k) => p.subrange(k + 1, p.len() as int),
        None => p,
    }
}

/// A Windows-style path whose extension is the same on every platform: it
/// holds no `/`, does not begin with `\\` (a verbatim, device or network
/// prefix on Windows), and its last `\`-separated segment is a plain file
/// name with an extension. On Windows that segment is the file name; where
/// `\` is no separator the whole path is, and its last dot lies in that
/// segment.
pub open spec fn backslash_path(p: Seq<char>) -> bool {
    &&& !p.contains('/')
    &&& !(p.len() >= 2 && p[0] == '\\' && p[1] == '\\')
    &&& plain_file_name(last_backslash_segment(p))
    &&& spec_name_extension(last_backslash_segment(p)) is Some
}

/// A path whose extension does not depend on the platform.
pub open spec fn known_path(p: Seq<char>) -> bool {
    simple_path(p) || backslash_path(p)
}

/// The file name of a [`known_path`].
pub open spec fn known_file_name(p: Seq<char>) -> Seq<char> {
    if simple_path(p) {
        last_segment(p)
    } else {
        last_backslash_segment(p)
    }
}

/// The category a recovered file gets by the extension of its file name.
pub open spec fn spec_path_category(p: Seq<char>) -> Option<Seq<char>> {
    spec_name_category(known_file_name(p))
}

/// The extension of a path, as `std::path::Path::extension` gives it,
/// converted to a `String`. Trusted. `Path::extension` is documented as the
/// part of the file name (the last component) after its last dot, none when
/// the name has no dot or only a leading one. Which characters separate
/// components depends on the platform (`/` everywhere, and on Windows also
/// the backslash, which alone separates in a verbatim path). The rule is
/// stated exactly where the result is the same on every platform: for a [`simple_path`], whose
/// file name is its last `/`-separated segment, and for a
/// [`backslash_path`], whose extension follows the last dot of its last
/// `\`-separated segment. Of other paths only what holds everywhere is
/// stated: an extension holds no dot.
#[verifier::external_body]
fn path_extension(path: &str) -> (r: Option<String>)
    ensures
        r matches Some(e) ==> !e@.contains('.'),
        simple_path(path@) ==> match r {
            Some(e) => spec_name_extension(last_segment(path@)) == Some(e@),
            None => spec_name_extension(last_segment(path@)) is None,
        },
        backslash_path(path@) ==> match r {
            Some(e) => spec_name_extension(last_backslash_segment(path@)) == Some(e@),
            None => false,
        },
{
    std::path::Path::new(path).extension().map(|e| e.to_string_lossy().into_owned())
}

/// The category directory names that extensions map to.
pub open spec fn is_category_name(c: Seq<char>) -> bool {
    c == "Imágenes"@ || c == "Documentos"@ || c == "Archivos"@ || c == "Audio"@ || c == "Video"@
        || c == "Ejecutables"@ || c == "Otros"@
}

/// `e` is one of `opts`.
pub open spec fn one_of(e: Seq<char>, opts: Seq<Seq<char>>) -> bool {
    exists|i: int| 0 <= i < opts.len() && opts[i] == e
}

/// Category of a lower-case extension.
pub open spec fn spec_extension_category(e: Seq<char>) -> Seq<char> {
    if one_of(e, seq!["jpg"@, "jpeg"@, "png"@, "gif"@, "bmp"@, "tiff"@, "webp"@, "ico"@]) {
        "Imágenes"@
    } else if one_of(e, seq!["pdf"@, "doc"@, "docx"@, "xls"@, "xlsx"@, "ppt"@, "pptx"@, "odt"@]) {
        "Documentos"@
    } else if one_of(e, seq!["zip"@, "rar"@, "7z"@, "tar"@, "gz"@]) {
        "Archivos"@
    } else if one_of(e, seq!["mp3"@, "wav"@, "flac"@, "aac"@, "ogg"@]) {
        "Audio"@
    } else if one_of(e, seq!["mp4"@, "avi"@, "mkv"@, "mov"@, "wmv"@, "webm"@]) {
        "Video"@
    } else if one_of(e, seq!["exe"@, "dll"@, "msi"@]) {
        "Ejecutables"@
    } else {
        "Otros"@
    }
}

/// Whether `e` is one of the strings in `opts`.
fn equals_any(e: &str, opts: &[&str]) -> (r: bool)
    ensures
        r == one_of(e@, opts@.map_values(|o: &str| o@)),
{
    let mut i: usize = 0;
    while i < opts.len()
        invariant
            i <= opts@.len(),
            forall|j: int| 0 <= j < i ==> opts@[j]@ != e@,
        decreases opts@.len() - i,
    {
        if crate::text::str_equal(e, opts[i]) {
            assert(opts@.map_values(|o: &str| o@)[i as int] == e@);
            return true;
        }
        i += 1;
    }
    proof {
        let m = opts@.map_values(|o: &str| o@);
        assert forall|j: int| 0 <= j < m.len() implies m[j] != e@ by {
            assert(m[j] == opts@[j]@);
        }
    }
    false
}

/// Category of a lower-case extension (see [`spec_extension_category`]).
pub fn extension_category(e: &str) -> (c: &'static str)
    ensures
        c@ == spec_extension_category(e@),
{
    let images = ["jpg", "jpeg", "png", "gif", "bmp", "tiff", "webp", "ico"];
    assert(images@.map_values(|o: &str| o@) =~= seq!["jpg"@, "jpeg"@, "png"@, "gif"@, "bmp"@, "tiff"@, "webp"@, "ico"@]);
    if equals_any(e, &images) {
        return "Imágenes";
    }
    let docs = ["pdf", "doc", "docx", "xls", "xlsx", "ppt", "pptx", "odt"];
    assert(docs@.map_values(|o: &str| o@) =~= seq!["pdf"@, "doc"@, "docx"@, "xls"@, "xlsx"@, "ppt"@, "pptx"@, "odt"@]);
    if equals_any(e, &docs) {
        return "Documentos";
    }
    let archives = ["zip", "rar", "7z", "tar", "gz"];
    assert(archives@.map_values(|o: &str| o@) =~= seq!["zip"@, "rar"@, "7z"@, "tar"@, "gz"@]);
    if equals_any(e, &archives) {
        return "Archivos";
    }
    let audio = ["mp3", "wav", "flac", "aac", "ogg"];
    assert(audio@.map_values(|o: &str| o@) =~= seq!["mp3"@, "wav"@, "flac"@, "aac"@, "ogg"@]);
    if equals_any(e, &audio) {
        return "Audio";
    }
    let video = ["mp4", "avi", "mkv", "mov", "wmv", "webm"];
    assert(video@.map_values(|o: &str| o@) =~= seq!["mp4"@, "avi"@, "mkv"@, "mov"@, "wmv"@, "webm"@]);
    if equals_any(e, &video) {
        return "Video";
    }
    let exes = ["exe", "dll", "msi"];
    assert(exes@.map_values(|o: &str| o@) =~= seq!["exe"@, "dll"@, "msi"@]);
    if equals_any(e, &exes) {
        return "Ejecutables";
    }
    "Otros"
}

/// Category of an extension in any case: its lower-case form decides.
pub fn category_of_extension(e: &str) -> (c: &'static str)
    ensures
        c@ == spec_extension_category(lowercase_of(e@)),
        is_category_name(c@),
{
    let lower = to_lowercase(e);
    extension_category(lower.as_str())
}

/// Recovered files of one category.
pub struct CategoryGroup {
    pub category: String,
    pub files: Vec<String>,
}

/// Views of a list of paths.
pub open spec fn paths_view(files: Seq<String>) -> Seq<Seq<char>> {
    files.map_values(|f: String| f@)
}

/// Views of a list of optional names.
pub open spec fn options_view(cats: Seq<Option<String>>) -> Seq<Option<Seq<char>>> {
    cats.map_values(|c: Option<String>| match c {
        Some(s) => Some(s@),
        None => None,
    })
}

/// Views of a list of groups: (category, files).
pub open spec fn groups_view(groups: Seq<CategoryGroup>) -> Seq<(Seq<char>, Seq<Seq<char>>)> {
    groups.map_values(|g: CategoryGroup| (g.category@, paths_view(g.files@)))
}

/// The files among the first `n` whose category is `c`, in order.
pub open spec fn files_in(files: Seq<Seq<char>>, cats: Seq<Option<Seq<char>>>, c: Seq<char>, n: int) -> Seq<Seq<char>>
    decreases n,
{
    if n <= 0 {
        Seq::empty()
    } else if cats[n - 1] == Some(c) {
        files_in(files, cats, c, n - 1).push(files[n - 1])
    } else {
        files_in(files, cats, c, n - 1)
    }
}

/// `groups` groups `files` by `cats`: one group per category that occurs,
/// none twice, each holding exactly the files of its category in their order.
pub open spec fn grouping(groups: Seq<(Seq<char>, Seq<Seq<char>>)>, files: Seq<Seq<char>>, cats: Seq<Option<Seq<char>>>) -> bool {
    &&& forall|i: int, j: int| 0 <= i < j < groups.len() ==> groups[i].0 != groups[j].0
    &&& forall|i: int| 0 <= i < groups.len() ==> #[trigger] groups[i].1 == files_in(files, cats, groups[i].0, files.len() as int)
    &&& forall|i: int| 0 <= i < groups.len() ==> groups[i].1.len() > 0
    &&& forall|k: int| 0 <= k < cats.len() && #[trigger] cats[k] is Some ==>
        exists|i: int| 0 <= i < groups.len() && groups[i].0 == cats[k]->0
}


/// A category that occurs among the first `n` entries has files there.
pub proof fn lemma_files_in_nonempty(files: Seq<Seq<char>>, cats: Seq<Option<Seq<char>>>, c: Seq<char>, k: int, n: int)
    requires
        0 <= k < n,
        cats[k] == Some(c),
    ensures
        files_in(files, cats, c, n).len() > 0,
    decreases n,
{
    if k < n - 1 {
        lemma_files_in_nonempty(files, cats, c, k, n - 1);
    }
}

/// The files whose category is `c`, in order.
fn collect_category(files: &[String], cats: &[Option<String>], c: &str) -> (r: Vec<String>)
    requires
        files@.len() == cats@.len(),
    ensures
        paths_view(r@) == files_in(paths_view(files@), options_view(cats@), c@, files@.len() as int),
{
    let mut r: Vec<String> = Vec::new();
    let mut k: usize = 0;
    while k < files.len()
        invariant
            k <= files@.len(),
            files@.len() == cats@.len(),
            paths_view(r@) == files_in(paths_view(files@), options_view(cats@), c@, k as int),
        decreases files@.len() - k,
    {
        let hit = match &cats[k] {
            Some(name) => crate::text::str_equal(name.as_str(), c),
            None => false,
        };
        assert(hit == (options_view(cats@)[k as int] == Some(c@)));
        if hit {
            r.push(files[k].clone());
            assert(paths_view(r@) =~= files_in(paths_view(files@), options_view(cats@), c@, k as int).push(files@[k as int]@));
        }
        k += 1;
    }
    r
}

/// Groups `files` by `cats` (one entry per file: its category, if any), one
/// group per category, in the order the categories first occur.
pub fn group_by_category(files: &[String], cats: &[Option<String>]) -> (groups: Vec<CategoryGroup>)
    requires
        files@.len() == cats@.len(),
    ensures
        grouping(groups_view(groups@), paths_view(files@), options_view(cats@)),
{
    let ghost fv = paths_view(files@);
    let ghost cv = options_view(cats@);
    let n = files.len();
    let mut groups: Vec<CategoryGroup> = Vec::new();
    let mut k: usize = 0;
    while k < n
        invariant
            k <= n,
            n == files@.len(),
            files@.len() == cats@.len(),
            fv == paths_view(files@),
            cv == options_view(cats@),
            forall|i: int, j: int| 0 <= i < j < groups@.len() ==> groups_view(groups@)[i].0 != groups_view(groups@)[j].0,
            forall|i: int| 0 <= i < groups@.len() ==> #[trigger] groups_view(groups@)[i].1 == files_in(fv, cv, groups_view(groups@)[i].0, n as int),
            forall|i: int| 0 <= i < groups@.len() ==> groups_view(groups@)[i].1.len() > 0,
            forall|j: int| 0 <= j < k && #[trigger] cv[j] is Some ==>
                exists|i: int| 0 <= i < groups@.len() && groups_view(groups@)[i].0 == cv[j]->0,
        decreases n - k,
    {
        if let Some(c) = &cats[k] {
            let mut seen = false;
            let mut i: usize = 0;
            while i < groups.len()
                invariant
                    i <= groups@.len(),
                    seen ==> exists|g: int| 0 <= g < groups@.len() && groups_view(groups@)[g].0 == c@,
                    !seen ==> forall|g: int| 0 <= g < i ==> groups_view(groups@)[g].0 != c@,
                decreases groups@.len() - i,
            {
                if crate::text::str_equal(groups[i].category.as_str(), c.as_str()) {
                    assert(groups_view(groups@)[i as int].0 == c@);
                    seen = true;
                }
                i += 1;
            }
            if !seen {
                let members = collect_category(files, cats, c.as_str());
                assert(cv[k as int] == Some(c@));
                proof {
                    lemma_files_in_nonempty(fv, cv, c@, k as int, n as int);
                }
                let ghost old_groups = groups@;
                groups.push(CategoryGroup { category: c.clone(), files: members });
                assert(groups_view(groups@) =~= groups_view(old_groups).push((c@, paths_view(members@))));
                assert forall|j: int| 0 <= j < k + 1 && #[trigger] cv[j] is Some implies
                    exists|i: int| 0 <= i < groups@.len() && groups_view(groups@)[i].0 == cv[j]->0 by {
                    if j < k {
                        let i0 = choose|i: int| 0 <= i < old_groups.len() && groups_view(old_groups)[i].0 == cv[j]->0;
                        assert(groups_view(groups@)[i0].0 == cv[j]->0);
                    } else {
                        assert(groups_view(groups@)[old_groups.len() as int].0 == cv[j]->0);
                    }
                }
            }
        }
        k += 1;
    }
    groups
}

/// Whether the first bytes of a recovered file show data: not all zero.
pub fn recovered_header_valid(header: &[u8]) -> (r: bool)
    ensures
        r == !all_zero(header@),
{
    has_nonzero_byte(header)
}

/// Information on a recovered file.
pub struct RecoveredFileInfo {
    pub path: String,
    pub size: u64,
    pub extension: String,
    pub is_valid: bool,
}

/// The information on a recovered file at `path` of `size` bytes, whose
/// first 16 bytes are `header` (`None` when they could not be read): its
/// extension, or `unknown`, and whether the header shows data.
pub fn recovered_file_info(path: &str, size: u64, header: Option<&[u8]>) -> (r: RecoveredFileInfo)
    ensures
        r.path@ == path@,
        r.size == size,
        r.is_valid == (header matches Some(h) && !all_zero(h@)),
        known_path(path@) ==> r.extension@ == match spec_name_extension(known_file_name(path@)) {
            Some(e) => e,
            None => "unknown"@,
        },
        !r.extension@.contains('.') || r.extension@ == "unknown"@,
{
    let extension = match path_extension(path) {
        Some(e) => e,
        None => "unknown".to_owned(),
    };
    let is_valid = match header {
        Some(h) => recovered_header_valid(h),
        None => false,
    };
    RecoveredFileInfo { path: path.to_owned(), size, extension, is_valid }
}

} // verus!
