//! FAT32 and NTFS metadata: recognising the file system from its boot
//! sector, its geometry, FAT directory entries (with long names) and NTFS
//! MFT records.

use vstd::prelude::*;
use vstd::string::StrSliceExecFns;
use crate::bytes::{bytes_at, bytes_at_exec, le_u16, le_u32, le_u64, read_le_u16, read_le_u32, read_le_u64};
use crate::classifier::AIClassifier;
use crate::scanner::{spec_classified_probability, FoundFile, FoundFileView};
use crate::signatures::{detect_file_type, spec_detect_index, spec_signature_database, FileType};
use crate::text::{str_equal, from_utf16, last_index_of, lowercase_of, push_char, rfind_char, to_lowercase, utf16_decode_of};

verus! {

/// File system of a volume.
#[derive(Clone, Copy, Debug, PartialEq, Eq, Structural)]
pub enum FileSystemType {
    Fat32,
    Ntfs,
    Unknown,
}

/// A file (or directory) listed by the file system's metadata.
pub struct FileEntry {
    pub name: String,
    pub size: u64,
    pub offset: u64,
    pub is_deleted: bool,
    /// `Directorio` for directories, else the lower-case extension of the name.
    pub file_type: String,
    pub created: Option<u64>,
    pub modified: Option<u64>,
}

/// Abstract value of a [`FileEntry`].
pub struct FileEntryView {
    pub name: Seq<char>,
    pub size: u64,
    pub offset: u64,
    pub is_deleted: bool,
    pub file_type: Seq<char>,
    pub created: Option<u64>,
    pub modified: Option<u64>,
}

impl View for FileEntry {
    type V = FileEntryView;

    open spec fn view(&self) -> FileEntryView {
        FileEntryView {
            name: self.name@,
            size: self.size,
            offset: self.offset,
            is_deleted: self.is_deleted,
            file_type: self.file_type@,
            created: self.created,
            modified: self.modified,
        }
    }
}

/// The ASCII bytes of `NTFS`.
pub open spec fn ntfs_tag() -> Seq<u8> {
    seq![0x4Eu8, 0x54u8, 0x46u8, 0x53u8]
}

/// The ASCII bytes of `FAT32   ` (padded to eight).
pub open spec fn fat32_tag() -> Seq<u8> {
    seq![0x46u8, 0x41u8, 0x54u8, 0x33u8, 0x32u8, 0x20u8, 0x20u8, 0x20u8]
}

/// The ASCII bytes of `FAT16`.
pub open spec fn fat16_tag() -> Seq<u8> {
    seq![0x46u8, 0x41u8, 0x54u8, 0x31u8, 0x36u8]
}

/// The file system that a boot sector announces: `NTFS` at byte 3, `FAT32`
/// at byte 82, or `FAT16` at byte 54 (read as FAT32).
pub open spec fn spec_detect_filesystem(boot: Seq<u8>) -> FileSystemType {
    if bytes_at(boot, 3, ntfs_tag()) {
        FileSystemType::Ntfs
    } else if bytes_at(boot, 82, fat32_tag()) {
        FileSystemType::Fat32
    } else if bytes_at(boot, 54, fat16_tag()) {
        FileSystemType::Fat32
    } else {
        FileSystemType::Unknown
    }
}

/// Error text when the boot sector is incomplete.
pub open spec fn short_boot_message() -> Seq<char> {
    "No se pudo leer el sector de arranque"@
}

/// The file system of a volume from the first bytes read at its start.
/// Fewer than 512 bytes is an error.
pub fn detect_filesystem(boot: &[u8]) -> (r: Result<FileSystemType, String>)
    ensures
        boot@.len() < 512 ==> (r matches Err(m) && m@ == short_boot_message()),
        boot@.len() >= 512 ==> r == Ok::<FileSystemType, String>(spec_detect_filesystem(boot@)),
{
    if boot.len() < 512 {
        return Err("No se pudo leer el sector de arranque".to_owned());
    }
    let ntfs: [u8; 4] = [0x4E, 0x54, 0x46, 0x53];
    let fat32: [u8; 8] = [0x46, 0x41, 0x54, 0x33, 0x32, 0x20, 0x20, 0x20];
    let fat16: [u8; 5] = [0x46, 0x41, 0x54, 0x31, 0x36];
    assert(ntfs@ == ntfs_tag());
    assert(fat32@ == fat32_tag());
    assert(fat16@ == fat16_tag());
    if bytes_at_exec(boot, 3, &ntfs) {
        Ok(FileSystemType::Ntfs)
    } else if bytes_at_exec(boot, 82, &fat32) {
        Ok(FileSystemType::Fat32)
    } else if bytes_at_exec(boot, 54, &fat16) {
        Ok(FileSystemType::Fat32)
    } else {
        Ok(FileSystemType::Unknown)
    }
}

/// Cluster size used until a boot sector gives the real one.
pub const DEFAULT_CLUSTER_SIZE: u64 = 4096;

/// Geometry of a volume: its file system, cluster size, and where the FAT
/// or the MFT starts once the boot sector was read.
pub struct FsLayout {
    pub fs_type: FileSystemType,
    pub cluster_size: u64,
    pub fat_offset: Option<u64>,
    pub mft_offset: Option<u64>,
}

/// Bounds that keep offset arithmetic in range: the cluster size is the
/// product of a 16-bit and an 8-bit field, and the FAT starts within the
/// first 2^32 bytes.
pub open spec fn layout_wf(l: FsLayout) -> bool {
    &&& l.cluster_size <= 65535 * 255
    &&& (l.fat_offset matches Some(f) ==> f <= 0xFFFF_FFFF)
}

/// Offset of cluster `c` in a FAT volume: data area after the reserved
/// sectors and two one-sector FATs; clusters below 2, or no FAT yet, give 0.
pub open spec fn spec_cluster_to_offset(l: FsLayout, c: u64) -> u64 {
    if c < 2 {
        0
    } else {
        match l.fat_offset {
            Some(f) => (f + 1024 + (c - 2) * l.cluster_size) as u64,
            None => 0,
        }
    }
}

impl FsLayout {
    /// Geometry before the boot sector is read: default cluster size, no FAT, no MFT.
    pub fn new(fs_type: FileSystemType) -> (l: FsLayout)
        ensures
            l == (FsLayout { fs_type, cluster_size: DEFAULT_CLUSTER_SIZE, fat_offset: None, mft_offset: None }),
            layout_wf(l),
    {
        FsLayout { fs_type, cluster_size: DEFAULT_CLUSTER_SIZE, fat_offset: None, mft_offset: None }
    }

    /// Reads the FAT32 geometry from a boot sector: cluster size (bytes per
    /// sector times sectors per cluster) and FAT start (reserved sectors times
    /// bytes per sector). Returns the root directory's cluster.
    pub fn read_fat32_boot(&mut self, boot: &[u8]) -> (root_cluster: u64)
        requires
            boot@.len() >= 512,
        ensures
            final(self).fs_type == old(self).fs_type,
            final(self).mft_offset == old(self).mft_offset,
            final(self).cluster_size == le_u16(boot@, 11) * boot@[13],
            final(self).fat_offset == Some((le_u16(boot@, 14) * le_u16(boot@, 11)) as u64),
            root_cluster == le_u32(boot@, 44),
            layout_wf(*final(self)),
    {
        let bytes_per_sector = read_le_u16(boot, 11);
        let sectors_per_cluster = boot[13] as u64;
        let reserved = read_le_u16(boot, 14);
        proof {
            assert(bytes_per_sector * sectors_per_cluster <= 65535 * 255) by (nonlinear_arith)
                requires
                    bytes_per_sector <= 65535,
                    sectors_per_cluster <= 255,
            ;
            assert(reserved * bytes_per_sector <= 0xFFFF_FFFF) by (nonlinear_arith)
                requires
                    bytes_per_sector <= 65535,
                    reserved <= 65535,
            ;
        }
        self.cluster_size = bytes_per_sector * sectors_per_cluster;
        self.fat_offset = Some(reserved * bytes_per_sector);
        read_le_u32(boot, 44)
    }

    /// Reads the NTFS geometry from a boot sector: cluster size and MFT start
    /// (the MFT's cluster, a 64-bit value at byte 48, times the cluster size).
    pub fn read_ntfs_boot(&mut self, boot: &[u8])
        requires
            boot@.len() >= 512,
            le_u64(boot@, 48) * (le_u16(boot@, 11) * boot@[13]) <= u64::MAX,
        ensures
            final(self).fs_type == old(self).fs_type,
            final(self).fat_offset == old(self).fat_offset,
            final(self).cluster_size == le_u16(boot@, 11) * boot@[13],
            final(self).mft_offset == Some((le_u64(boot@, 48) * (le_u16(boot@, 11) * boot@[13])) as u64),
            layout_wf(*old(self)) ==> layout_wf(*final(self)),
    {
        let mft_cluster = read_le_u64(boot, 48);
        let bytes_per_sector = read_le_u16(boot, 11);
        let sectors_per_cluster = boot[13] as u64;
        proof {
            assert(bytes_per_sector * sectors_per_cluster <= 65535 * 255) by (nonlinear_arith)
                requires
                    bytes_per_sector <= 65535,
                    sectors_per_cluster <= 255,
            ;
        }
        self.cluster_size = bytes_per_sector * sectors_per_cluster;
        self.mft_offset = Some(mft_cluster * self.cluster_size);
    }

    /// Offset of cluster `c` (see [`spec_cluster_to_offset`]).
    pub fn cluster_to_offset(&self, c: u64) -> (r: u64)
        requires
            layout_wf(*self),
            c <= 0xFFFF_FFFF,
        ensures
            r == spec_cluster_to_offset(*self, c),
    {
        if c < 2 {
            return 0;
        }
        match self.fat_offset {
            Some(f) => {
                proof {
                    assert((c - 2) * self.cluster_size <= 0xFFFF_FFFF * (65535 * 255)) by (nonlinear_arith)
                        requires
                            c - 2 <= 0xFFFF_FFFF,
                            self.cluster_size <= 65535 * 255,
                    ;
                }
                f + 1024 + (c - 2) * self.cluster_size
            },
            None => 0,
        }
    }
}

/// The extension of a file name, lower-cased: what follows its last dot, or
/// `desconocido` when it has none.
pub open spec fn spec_file_extension(name: Seq<char>) -> Seq<char> {
    match last_index_of(name, '.') {
        Some(p) => lowercase_of(name.subrange(p + 1, name.len() as int)),
        None => "desconocido"@,
    }
}

/// The lower-case extension of `name` (see [`spec_file_extension`]).
pub fn get_file_extension(name: &str) -> (r: String)
    ensures
        r@ == spec_file_extension(name@),
{
    match rfind_char(name, '.') {
        Some(p) => {
            proof {
                crate::bytes::lemma_last_match(crate::text::char_at(name@, '.'), 0, name@.len() as int);
            }
            let n = name.unicode_len();
            let rest = name.substring_char(p + 1, n);
            to_lowercase(rest)
        },
        None => "desconocido".to_owned(),
    }
}

/// Type text of an entry: `Directorio`, or the extension of its name.
pub open spec fn spec_entry_type(name: Seq<char>, is_directory: bool) -> Seq<char> {
    if is_directory {
        "Directorio"@
    } else {
        spec_file_extension(name)
    }
}

fn entry_type(name: &str, is_directory: bool) -> (r: String)
    ensures
        r@ == spec_entry_type(name@, is_directory),
{
    if is_directory {
        "Directorio".to_owned()
    } else {
        get_file_extension(name)
    }
}


/// The non-space bytes of `e[lo..hi]`, as Latin-1 characters.
pub open spec fn nonspace_chars(e: Seq<u8>, lo: int, hi: int) -> Seq<char>
    decreases hi - lo,
{
    if hi <= lo {
        Seq::empty()
    } else if e[hi - 1] != 0x20 {
        nonspace_chars(e, lo, hi - 1).push(e[hi - 1] as char)
    } else {
        nonspace_chars(e, lo, hi - 1)
    }
}

/// The 8.3 name of a FAT directory entry: base without padding, then a dot
/// and the extension when the extension is not blank.
pub open spec fn spec_short_name(e: Seq<u8>) -> Seq<char> {
    if e[8] != 0x20 {
        nonspace_chars(e, 0, 8) + seq!['.'] + nonspace_chars(e, 8, 11)
    } else {
        nonspace_chars(e, 0, 8)
    }
}

/// Offset of the `k`-th UTF-16 unit (of 13) in a long-name entry.
pub open spec fn lfn_offset(k: int) -> int {
    if k < 5 {
        1 + 2 * k
    } else if k < 11 {
        14 + 2 * (k - 5)
    } else {
        28 + 2 * (k - 11)
    }
}

/// The first `n` name units of a long-name entry, without `0000` and `FFFF` padding.
pub open spec fn lfn_units(e: Seq<u8>, n: int) -> Seq<u16>
    decreases n,
{
    if n <= 0 {
        Seq::empty()
    } else if le_u16(e, lfn_offset(n - 1)) != 0 && le_u16(e, lfn_offset(n - 1)) != 0xFFFF {
        lfn_units(e, n - 1).push(le_u16(e, lfn_offset(n - 1)) as u16)
    } else {
        lfn_units(e, n - 1)
    }
}

/// What a 32-byte FAT directory entry is: 0 end of directory, 1 a file or
/// directory, 2 a piece of a long name, 3 nothing to use (deleted).
pub open spec fn fat_kind(e: Seq<u8>) -> int {
    if e[0] == 0 {
        0
    } else if e[0] != 0xE5 && e[11] != 0x0F {
        1
    } else if e[11] == 0x0F {
        2
    } else {
        3
    }
}

/// First cluster of an entry: high half at byte 26, low half at byte 20.
pub open spec fn fat_first_cluster(e: Seq<u8>) -> int {
    le_u16(e, 26) * 65536 + le_u16(e, 20)
}

/// The directory attribute bit.
pub open spec fn fat_is_directory(e: Seq<u8>) -> bool {
    e[11] & 0x10u8 != 0
}

/// Name of a file entry: the long name collected before it, if any, else its 8.3 name.
pub open spec fn fat_entry_name(e: Seq<u8>, long_name: Seq<char>) -> Seq<char> {
    if long_name.len() > 0 {
        long_name
    } else {
        spec_short_name(e)
    }
}

/// The file listed by a file entry.
pub open spec fn spec_fat_entry(l: FsLayout, e: Seq<u8>, long_name: Seq<char>) -> FileEntryView {
    let name = fat_entry_name(e, long_name);
    FileEntryView {
        name,
        size: le_u32(e, 28) as u64,
        offset: spec_cluster_to_offset(l, fat_first_cluster(e) as u64),
        is_deleted: false,
        file_type: spec_entry_type(name, fat_is_directory(e)),
        created: None,
        modified: None,
    }
}

/// Where the directory listed by an entry starts, when it is one to read
/// (a directory whose first cluster is at least 2).
pub open spec fn spec_fat_subdir(l: FsLayout, e: Seq<u8>) -> Option<u64> {
    if fat_is_directory(e) && fat_first_cluster(e) >= 2 {
        Some(spec_cluster_to_offset(l, fat_first_cluster(e) as u64))
    } else {
        None
    }
}

/// The long name after a long-name entry: the first piece of a name (flag
/// `0x40`) starts afresh; the decoded piece goes in front; undecodable
/// pieces are dropped.
pub open spec fn spec_lfn_update(e: Seq<u8>, long_name: Seq<char>) -> Seq<char> {
    let base = if e[0] & 0x40u8 != 0 {
        Seq::<char>::empty()
    } else {
        long_name
    };
    match utf16_decode_of(lfn_units(e, 13)) {
        Some(piece) => piece + base,
        None => base,
    }
}

/// What one directory entry contributes.
pub enum FatEntryStep {
    /// End of the directory.
    End,
    /// A file or directory, and where to read it when it is a directory.
    Entry { entry: FileEntry, subdir: Option<u64> },
    /// The long name collected so far.
    LongName(String),
    /// Nothing.
    Skip,
}

fn nonspace_into(s: &mut String, e: &[u8], lo: usize, hi: usize)
    requires
        lo <= hi <= e@.len(),
    ensures
        final(s)@ == old(s)@ + nonspace_chars(e@, lo as int, hi as int),
{
    let mut i = lo;
    while i < hi
        invariant
            lo <= i <= hi,
            hi <= e@.len(),
            s@ == old(s)@ + nonspace_chars(e@, lo as int, i as int),
        decreases hi - i,
    {
        if e[i] != 0x20 {
            push_char(s, e[i] as char);
        }
        assert(s@ =~= old(s)@ + nonspace_chars(e@, lo as int, i + 1));
        i += 1;
    }
}

/// The 8.3 name of a FAT directory entry (see [`spec_short_name`]).
pub fn short_name(e: &[u8]) -> (s: String)
    requires
        e@.len() >= 11,
    ensures
        s@ == spec_short_name(e@),
{
    let mut s = String::new();
    nonspace_into(&mut s, e, 0, 8);
    if e[8] != 0x20 {
        push_char(&mut s, '.');
        nonspace_into(&mut s, e, 8, 11);
    }
    assert(s@ =~= spec_short_name(e@));
    s
}

/// The name units of a long-name entry (see [`lfn_units`]).
pub fn long_name_units(e: &[u8]) -> (r: Vec<u16>)
    requires
        e@.len() >= 32,
    ensures
        r@ == lfn_units(e@, 13),
{
    let mut r: Vec<u16> = Vec::new();
    let mut k: usize = 0;
    while k < 13
        invariant
            k <= 13,
            e@.len() >= 32,
            r@ == lfn_units(e@, k as int),
        decreases 13 - k,
    {
        let off: usize = if k < 5 {
            1 + 2 * k
        } else if k < 11 {
            14 + 2 * (k - 5)
        } else {
            28 + 2 * (k - 11)
        };
        let u = read_le_u16(e, off);
        if u != 0 && u != 0xFFFF {
            r.push(u as u16);
        }
        k += 1;
    }
    r
}

/// What a 32-byte FAT directory entry contributes, given the long name
/// collected before it in the same directory.
pub fn fat_entry_step(l: &FsLayout, e: &[u8], long_name: &str) -> (step: FatEntryStep)
    requires
        e@.len() >= 32,
        layout_wf(*l),
    ensures
        fat_kind(e@) == 0 ==> step is End,
        fat_kind(e@) == 1 ==> (step matches FatEntryStep::Entry { entry, subdir } && entry@ == spec_fat_entry(*l, e@, long_name@)
            && subdir == spec_fat_subdir(*l, e@)),
        fat_kind(e@) == 2 ==> (step matches FatEntryStep::LongName(s) && s@ == spec_lfn_update(e@, long_name@)),
        fat_kind(e@) == 3 ==> step is Skip,
{
    if e[0] == 0x00 {
        return FatEntryStep::End;
    }
    if e[0] != 0xE5 && e[11] != 0x0F {
        let name = if long_name.unicode_len() > 0 {
            long_name.to_owned()
        } else {
            short_name(e)
        };
        let is_directory = (e[11] & 0x10) != 0;
        let size = read_le_u32(e, 28);
        let first_cluster = read_le_u16(e, 26) * 65536 + read_le_u16(e, 20);
        let offset = l.cluster_to_offset(first_cluster);
        let file_type = entry_type(name.as_str(), is_directory);
        let subdir = if is_directory && first_cluster >= 2 {
            Some(offset)
        } else {
            None
        };
        let entry = FileEntry { name, size, offset, is_deleted: false, file_type, created: None, modified: None };
        return FatEntryStep::Entry { entry, subdir };
    }
    if e[11] == 0x0F {
        let units = long_name_units(e);
        let base = if e[0] & 0x40 != 0 {
            String::new()
        } else {
            long_name.to_owned()
        };
        let updated = match from_utf16(&units) {
            Some(piece) => {
                let mut t = piece;
                t.append(base.as_str());
                t
            },
            None => base,
        };
        return FatEntryStep::LongName(updated);
    }
    FatEntryStep::Skip
}


/// Directories nested deeper than this are not read.
pub const MAX_DIRECTORY_DEPTH: u64 = 10;

/// A directory being read: where its next entry is, how deep it lies, and
/// the long name collected so far.
pub struct FatFrame {
    pub offset: u64,
    pub depth: u64,
    pub long_name: String,
}

/// Abstract value of a [`FatFrame`].
pub struct FatFrameView {
    pub offset: u64,
    pub depth: u64,
    pub long_name: Seq<char>,
}

/// Abstract state of a directory walk: the directories being read,
/// innermost last, and the entries listed so far.
pub struct FatWalkView {
    pub frames: Seq<FatFrameView>,
    pub files: Seq<FileEntryView>,
}

/// Walk of a FAT directory tree, depth first: each directory entry is read
/// in turn, and a subdirectory is read completely where its entry stands.
pub struct FatWalk {
    frames: Vec<FatFrame>,
    files: Vec<FileEntry>,
}

/// Views of frames.
pub open spec fn frames_view(f: Seq<FatFrame>) -> Seq<FatFrameView> {
    f.map_values(|x: FatFrame| FatFrameView { offset: x.offset, depth: x.depth, long_name: x.long_name@ })
}

/// Views of entries.
pub open spec fn entries_view(f: Seq<FileEntry>) -> Seq<FileEntryView> {
    f.map_values(|x: FileEntry| x@)
}

impl View for FatWalk {
    type V = FatWalkView;

    closed spec fn view(&self) -> FatWalkView {
        FatWalkView { frames: frames_view(self.frames@), files: entries_view(self.files@) }
    }
}

/// The walk after reading the 32 bytes `e` of the innermost directory's next
/// entry: end of directory (or an incomplete read) closes the directory; a
/// file is listed and, for a directory not too deep, opened next; a long-name
/// piece updates the collected name.
pub open spec fn spec_fat_record(w: FatWalkView, l: FsLayout, e: Seq<u8>) -> FatWalkView {
    let top = w.frames.last();
    let rest = w.frames.drop_last();
    if e.len() < 32 || fat_kind(e) == 0 {
        FatWalkView { frames: rest, files: w.files }
    } else if fat_kind(e) == 1 {
        let moved = rest.push(FatFrameView { offset: (top.offset + 32) as u64, depth: top.depth, long_name: Seq::empty() });
        FatWalkView {
            frames: match spec_fat_subdir(l, e) {
                Some(o) => if top.depth + 1 <= MAX_DIRECTORY_DEPTH {
                    moved.push(FatFrameView { offset: o, depth: (top.depth + 1) as u64, long_name: Seq::empty() })
                } else {
                    moved
                },
                None => moved,
            },
            files: w.files.push(spec_fat_entry(l, e, top.long_name)),
        }
    } else if fat_kind(e) == 2 {
        FatWalkView {
            frames: rest.push(FatFrameView { offset: (top.offset + 32) as u64, depth: top.depth, long_name: spec_lfn_update(e, top.long_name) }),
            files: w.files,
        }
    } else {
        FatWalkView {
            frames: rest.push(FatFrameView { offset: (top.offset + 32) as u64, depth: top.depth, long_name: top.long_name }),
            files: w.files,
        }
    }
}

impl FatWalk {
    /// A walk of the directory tree whose root directory starts at `root_offset`.
    pub fn new(root_offset: u64) -> (w: FatWalk)
        ensures
            w@.frames == seq![FatFrameView { offset: root_offset, depth: 0, long_name: Seq::empty() }],
            w@.files == Seq::<FileEntryView>::empty(),
    {
        let mut frames: Vec<FatFrame> = Vec::new();
        frames.push(FatFrame { offset: root_offset, depth: 0, long_name: String::new() });
        let files: Vec<FileEntry> = Vec::new();
        let w = FatWalk { frames, files };
        assert(w@.frames =~= seq![FatFrameView { offset: root_offset, depth: 0, long_name: Seq::empty() }]);
        assert(w@.files =~= Seq::<FileEntryView>::empty());
        w
    }

    /// Offset of the next 32-byte entry to read, or `None` when the walk is over.
    pub fn next_read(&self) -> (r: Option<u64>)
        ensures
            self@.frames.len() == 0 ==> r is None,
            self@.frames.len() > 0 ==> r == Some(self@.frames.last().offset),
    {
        let n = self.frames.len();
        if n == 0 {
            None
        } else {
            Some(self.frames[n - 1].offset)
        }
    }

    /// Records a failed read of the next entry: the directory is closed.
    pub fn record_failure(&mut self)
        requires
            old(self)@.frames.len() > 0,
        ensures
            final(self)@.frames == old(self)@.frames.drop_last(),
            final(self)@.files == old(self)@.files,
    {
        let ghost before = self.frames@;
        self.frames.pop();
        assert(frames_view(self.frames@) =~= frames_view(before).drop_last());
    }

    /// Records the bytes read for the next entry (see [`spec_fat_record`]).
    pub fn record_entry(&mut self, l: &FsLayout, e: &[u8])
        requires
            old(self)@.frames.len() > 0,
            old(self)@.frames.last().offset + 32 <= u64::MAX,
            layout_wf(*l),
        ensures
            final(self)@ == spec_fat_record(old(self)@, *l, e@),
    {
        let ghost before = *self;
        let top = self.frames.pop().unwrap();
        assert(frames_view(self.frames@) =~= frames_view(before.frames@).drop_last());
        assert(frames_view(before.frames@).last() == FatFrameView { offset: top.offset, depth: top.depth, long_name: top.long_name@ });
        if e.len() < 32 {
            return;
        }
        match fat_entry_step(l, e, top.long_name.as_str()) {
            FatEntryStep::End => {},
            FatEntryStep::Entry { entry, subdir } => {
                let ghost files_before = self.files@;
                let ghost frames_before = self.frames@;
                self.files.push(entry);
                assert(entries_view(self.files@) =~= entries_view(files_before).push(entry@));
                self.frames.push(FatFrame { offset: top.offset + 32, depth: top.depth, long_name: String::new() });
                match subdir {
                    Some(o) => {
                        if top.depth < MAX_DIRECTORY_DEPTH {
                            self.frames.push(FatFrame { offset: o, depth: top.depth + 1, long_name: String::new() });
                        }
                    },
                    None => {},
                }
                assert(frames_view(self.frames@) =~= spec_fat_record(before@, *l, e@).frames);
            },
            FatEntryStep::LongName(name) => {
                let ghost frames_before = self.frames@;
                self.frames.push(FatFrame { offset: top.offset + 32, depth: top.depth, long_name: name });
                assert(frames_view(self.frames@) =~= spec_fat_record(before@, *l, e@).frames);
            },
            FatEntryStep::Skip => {
                let ghost frames_before = self.frames@;
                self.frames.push(FatFrame { offset: top.offset + 32, depth: top.depth, long_name: top.long_name });
                assert(frames_view(self.frames@) =~= spec_fat_record(before@, *l, e@).frames);
            },
        }
    }

    /// The entries listed so far.
    pub fn into_files(self) -> (r: Vec<FileEntry>)
        ensures
            entries_view(r@) == self@.files,
    {
        self.files
    }
}


/// Size of an MFT record.
pub const MFT_RECORD_SIZE: u64 = 1024;

/// Number of MFT records read.
pub const MFT_RECORDS_READ: u64 = 100;

/// What the attributes of an MFT record give: the name, size and data
/// offset of the file, and whether it is a directory.
pub struct MftInfo {
    pub name: Seq<char>,
    pub size: u64,
    pub data_offset: u64,
    pub is_directory: bool,
}

/// The `FILE` signature of an MFT record.
pub open spec fn mft_signature() -> Seq<u8> {
    seq![0x46u8, 0x49u8, 0x4Cu8, 0x45u8]
}

/// The `n` UTF-16 units of a name stored at `at`.
pub open spec fn mft_name_units(d: Seq<u8>, at: int, n: int) -> Seq<u16> {
    Seq::new(n as nat, |k: int| le_u16(d, at + 2 * k) as u16)
}

/// The effect of the attribute at `off`: `$FILE_NAME` (0x30) sets the name
/// when it decodes, `$DATA` (0x80) the size and data offset, `$INDEX_ROOT`
/// (0x90) marks a directory.
pub open spec fn mft_attribute(d: Seq<u8>, off: int, st: MftInfo) -> MftInfo {
    let ty = le_u32(d, off);
    if ty == 0x30 {
        if off + 24 < d.len() && off + 66 + 2 * d[off + 64] <= d.len() {
            match utf16_decode_of(mft_name_units(d, off + 66, d[off + 64] as int)) {
                Some(name) => MftInfo { name, ..st },
                None => st,
            }
        } else {
            st
        }
    } else if ty == 0x80 {
        if off + 16 < d.len() {
            MftInfo { size: le_u32(d, off + 16) as u64, data_offset: le_u32(d, off + 20) as u64, ..st }
        } else {
            st
        }
    } else if ty == 0x90 {
        MftInfo { is_directory: true, ..st }
    } else {
        st
    }
}

/// The attributes from `off` on, each followed by the next at its length,
/// until one of length 0, the last four bytes of the record, or a length
/// that leads past its end.
pub open spec fn mft_walk(d: Seq<u8>, off: int, st: MftInfo) -> MftInfo
    decreases d.len() - off,
{
    if 0 <= off && off + 4 < d.len() && le_u32(d, off + 4) != 0 {
        if off + le_u32(d, off + 4) <= d.len() {
            mft_walk(d, off + le_u32(d, off + 4), mft_attribute(d, off, st))
        } else {
            mft_attribute(d, off, st)
        }
    } else {
        st
    }
}

/// The attribute walk from `off` reads only inside the record: each
/// attribute header fits, and so do the fields that its type reads.
pub open spec fn mft_walk_defined(d: Seq<u8>, off: int) -> bool
    decreases d.len() - off,
{
    if 0 <= off && off + 4 < d.len() {
        &&& off + 8 <= d.len()
        &&& (le_u32(d, off + 4) != 0 ==> {
            &&& (le_u32(d, off) == 0x30 && off + 24 < d.len() ==> off + 64 < d.len())
            &&& (le_u32(d, off) == 0x80 && off + 16 < d.len() ==> off + 24 <= d.len())
            &&& (off + le_u32(d, off + 4) <= d.len() ==> mft_walk_defined(d, off + le_u32(d, off + 4)))
        })
    } else {
        true
    }
}

/// What the attributes of a record give, starting at the offset stored at byte 20.
pub open spec fn spec_mft_info(d: Seq<u8>) -> MftInfo {
    mft_walk(d, le_u16(d, 20), MftInfo { name: Seq::empty(), size: 0, data_offset: 0, is_directory: false })
}

/// The file an MFT record lists: records without the `FILE` signature or
/// without a name list none.
pub open spec fn spec_mft_entry(d: Seq<u8>) -> Option<FileEntryView> {
    if !bytes_at(d, 0, mft_signature()) {
        None
    } else {
        let info = spec_mft_info(d);
        if info.name.len() == 0 {
            None
        } else {
            Some(FileEntryView {
                name: info.name,
                size: info.size,
                offset: info.data_offset,
                is_deleted: false,
                file_type: spec_entry_type(info.name, info.is_directory),
                created: None,
                modified: None,
            })
        }
    }
}

/// Records on which the parse reads only inside the record.
pub open spec fn mft_record_defined(d: Seq<u8>) -> bool {
    bytes_at(d, 0, mft_signature()) ==> mft_walk_defined(d, le_u16(d, 20))
}

fn mft_name(d: &[u8], at: usize, n: usize) -> (r: Option<String>)
    requires
        at + 2 * n <= d.len(),
    ensures
        match r {
            Some(s) => utf16_decode_of(mft_name_units(d@, at as int, n as int)) == Some(s@),
            None => utf16_decode_of(mft_name_units(d@, at as int, n as int)) is None,
        },
{
    let mut units: Vec<u16> = Vec::new();
    let mut k: usize = 0;
    while k < n
        invariant
            k <= n,
            at + 2 * n <= d.len(),
            units@ == mft_name_units(d@, at as int, k as int),
        decreases n - k,
    {
        let u = read_le_u16(d, at + 2 * k);
        units.push(u as u16);
        assert(units@ =~= mft_name_units(d@, at as int, k + 1));
        k += 1;
    }
    from_utf16(&units)
}

/// The file listed by an MFT record of at least 1024 bytes (see [`spec_mft_entry`]).
pub fn parse_mft_record(d: &[u8]) -> (r: Option<FileEntry>)
    requires
        d@.len() >= MFT_RECORD_SIZE,
        mft_record_defined(d@),
    ensures
        match spec_mft_entry(d@) {
            Some(v) => r matches Some(e) && e@ == v,
            None => r is None,
        },
{
    let sig: [u8; 4] = [0x46, 0x49, 0x4C, 0x45];
    assert(sig@ == mft_signature());
    if !bytes_at_exec(d, 0, &sig) {
        return None;
    }
    let len = d.len();
    let mut name = String::new();
    let mut size: u64 = 0;
    let mut data_offset: u64 = 0;
    let mut is_directory = false;
    let first = read_le_u16(d, 20);
    assert(first < 65536);
    let mut off: usize = first as usize;
    while off < len - 4
        invariant_except_break
            mft_walk_defined(d@, off as int),
            spec_mft_info(d@) == mft_walk(d@, off as int, MftInfo { name: name@, size, data_offset, is_directory }),
        invariant
            len == d@.len(),
            len == d.len(),
            len >= MFT_RECORD_SIZE,
        ensures
            spec_mft_info(d@) == (MftInfo { name: name@, size, data_offset, is_directory }),
        decreases len - off,
    {
        let attr_type = read_le_u32(d, off);
        let attr_length = read_le_u32(d, off + 4);
        if attr_length == 0 {
            break;
        }
        if attr_type == 0x30 {
            if off < len - 24 && off <= len - 66 {
                let n = d[off + 64] as usize;
                let at = off + 66;
                if 2 * n <= len - at {
                    match mft_name(d, at, n) {
                        Some(s) => {
                            name = s;
                        },
                        None => {},
                    }
                }
            }
        } else if attr_type == 0x80 {
            if off < len - 16 {
                size = read_le_u32(d, off + 16);
                data_offset = read_le_u32(d, off + 20);
            }
        } else if attr_type == 0x90 {
            is_directory = true;
        }
        if attr_length > (len - off) as u64 {
            break;
        }
        off = off + attr_length as usize;
    }
    if name.unicode_len() == 0 {
        return None;
    }
    let file_type = entry_type(name.as_str(), is_directory);
    Some(FileEntry { name, size, offset: data_offset, is_deleted: false, file_type, created: None, modified: None })
}

/// What to read of a listed file: nothing when it is empty, else at most
/// `max_size` bytes at its offset.
pub fn read_request(entry: &FileEntry, max_size: u64) -> (r: Option<(u64, u64)>)
    ensures
        entry.size == 0 ==> r is None,
        entry.size > 0 ==> r == Some((entry.offset, if entry.size < max_size { entry.size } else { max_size })),
{
    if entry.size == 0 {
        None
    } else if entry.size < max_size {
        Some((entry.offset, entry.size))
    } else {
        Some((entry.offset, max_size))
    }
}


/// File type guessed from the recorded extension when no signature matches.
pub open spec fn spec_type_from_extension(ext: Seq<char>) -> FileType {
    if ext == "jpg"@ || ext == "jpeg"@ {
        FileType::Jpeg
    } else if ext == "png"@ {
        FileType::Png
    } else if ext == "gif"@ {
        FileType::Gif
    } else if ext == "pdf"@ {
        FileType::Pdf
    } else if ext == "doc"@ || ext == "docx"@ {
        FileType::Doc
    } else if ext == "xls"@ || ext == "xlsx"@ {
        FileType::Xls
    } else if ext == "mp3"@ {
        FileType::Mp3
    } else if ext == "mp4"@ {
        FileType::Mp4
    } else if ext == "zip"@ {
        FileType::Zip
    } else {
        FileType::Unknown
    }
}

/// File type guessed from the recorded extension (see [`spec_type_from_extension`]).
pub fn type_from_extension(ext: &str) -> (t: FileType)
    ensures
        t == spec_type_from_extension(ext@),
{
    if str_equal(ext, "jpg") || str_equal(ext, "jpeg") {
        FileType::Jpeg
    } else if str_equal(ext, "png") {
        FileType::Png
    } else if str_equal(ext, "gif") {
        FileType::Gif
    } else if str_equal(ext, "pdf") {
        FileType::Pdf
    } else if str_equal(ext, "doc") || str_equal(ext, "docx") {
        FileType::Doc
    } else if str_equal(ext, "xls") || str_equal(ext, "xlsx") {
        FileType::Xls
    } else if str_equal(ext, "mp3") {
        FileType::Mp3
    } else if str_equal(ext, "mp4") {
        FileType::Mp4
    } else if str_equal(ext, "zip") {
        FileType::Zip
    } else {
        FileType::Unknown
    }
}

/// Type of a listed file: the signature found in its first bytes, else its extension.
pub open spec fn spec_listed_file_type(sample: Seq<u8>, ext: Seq<char>) -> FileType {
    match spec_detect_index(sample) {
        Some(i) => spec_signature_database()[i].file_type,
        None => spec_type_from_extension(ext),
    }
}

/// Label of a file found through the file system.
pub open spec fn spec_listed_label(is_deleted: bool) -> Seq<char> {
    if is_deleted {
        "Sistema de archivos (eliminado)"@
    } else {
        "Sistema de archivos (existente)"@
    }
}

/// The found file that a listed file becomes: type from its first bytes
/// `sample` (or its extension), recoverability 95% for existing files and
/// the classifier's prediction for deleted ones, and the entropy of the sample.
pub open spec fn spec_listed_file(f: FileEntryView, sample: Seq<u8>, sample_entropy: u64, classifier_entropy: u64) -> FoundFileView {
    FoundFileView {
        offset: f.offset,
        file_type: spec_listed_file_type(sample, f.file_type),
        file_name: f.name,
        estimated_size: f.size,
        recoverability: if f.is_deleted {
            spec_classified_probability(sample, classifier_entropy) as u32
        } else {
            950
        },
        entropy: sample_entropy,
        signature_matched: spec_listed_label(f.is_deleted),
        selected: true,
    }
}

/// The found file that a listed file becomes (see [`spec_listed_file`]):
/// `sample` is its first bytes, `sample_entropy` their entropy as the scanner
/// computes it and `classifier_entropy` as the classifier's analyzer does.
pub fn listed_file(classifier: &AIClassifier, f: &FileEntry, sample: &[u8], sample_entropy: u64, classifier_entropy: u64) -> (r: FoundFile)
    ensures
        r@ == spec_listed_file(f@, sample@, sample_entropy, classifier_entropy),
{
    let file_type = match detect_file_type(sample) {
        Some(sig) => sig.file_type,
        None => type_from_extension(f.file_type.as_str()),
    };
    let recoverability = if f.is_deleted {
        let c = classifier.classify(sample, classifier_entropy);
        c.recovery_prediction.probability
    } else {
        950
    };
    let label = if f.is_deleted {
        "Sistema de archivos (eliminado)"
    } else {
        "Sistema de archivos (existente)"
    };
    FoundFile {
        offset: f.offset,
        file_type,
        file_name: f.name.clone(),
        estimated_size: f.size,
        recoverability,
        entropy: sample_entropy,
        signature_matched: label.to_owned(),
        selected: true,
    }
}


/// The found files that a listing of file-system entries becomes, one per
/// entry in order (see [`spec_listed_file`]); `samples[i]` is the first
/// bytes of `entries[i]`, and the entropies are those of the samples. Over
/// the whole listing, each file's label follows its entry's deleted flag,
/// and every existing file is 95% recoverable.
pub fn listed_files(
    classifier: &AIClassifier,
    entries: &[FileEntry],
    samples: &[Vec<u8>],
    sample_entropies: &[u64],
    classifier_entropies: &[u64],
) -> (r: Vec<FoundFile>)
    requires
        samples@.len() == entries@.len(),
        sample_entropies@.len() == entries@.len(),
        classifier_entropies@.len() == entries@.len(),
    ensures
        r@.len() == entries@.len(),
        forall|i: int| 0 <= i < r@.len() ==> #[trigger] r@[i]@ == spec_listed_file(
            entries@[i]@,
            samples@[i]@,
            sample_entropies@[i],
            classifier_entropies@[i],
        ),
        forall|i: int| 0 <= i < r@.len() ==> (#[trigger] r@[i]@).signature_matched == spec_listed_label(entries@[i].is_deleted)
            && (!entries@[i].is_deleted ==> r@[i]@.recoverability == 950),
{
    let mut r: Vec<FoundFile> = Vec::new();
    let mut i: usize = 0;
    while i < entries.len()
        invariant
            i <= entries@.len(),
            samples@.len() == entries@.len(),
            sample_entropies@.len() == entries@.len(),
            classifier_entropies@.len() == entries@.len(),
            r@.len() == i,
            forall|k: int| 0 <= k < i ==> #[trigger] r@[k]@ == spec_listed_file(
                entries@[k]@,
                samples@[k]@,
                sample_entropies@[k],
                classifier_entropies@[k],
            ),
        decreases entries@.len() - i,
    {
        let f = listed_file(classifier, &entries[i], samples[i].as_slice(), sample_entropies[i], classifier_entropies[i]);
        r.push(f);
        i += 1;
    }
    r
}

/// Whether parsing `d` as an MFT record reads only inside it (see [`mft_record_defined`]).
pub fn mft_record_safe(d: &[u8]) -> (r: bool)
    requires
        d@.len() >= MFT_RECORD_SIZE,
    ensures
        r == mft_record_defined(d@),
{
    let sig: [u8; 4] = [0x46, 0x49, 0x4C, 0x45];
    assert(sig@ == mft_signature());
    if !bytes_at_exec(d, 0, &sig) {
        return true;
    }
    let len = d.len();
    let first = read_le_u16(d, 20);
    assert(first < 65536);
    let mut off: usize = first as usize;
    while off < len - 4
        invariant
            len == d@.len(),
            len == d.len(),
            len >= MFT_RECORD_SIZE,
            mft_record_defined(d@) == mft_walk_defined(d@, off as int),
        decreases len - off,
    {
        if off > len - 8 {
            return false;
        }
        let attr_type = read_le_u32(d, off);
        let attr_length = read_le_u32(d, off + 4);
        if attr_length == 0 {
            return true;
        }
        if attr_type == 0x30 && off < len - 24 && !(off < len - 64) {
            return false;
        }
        if attr_type == 0x80 && off < len - 16 && !(off <= len - 24) {
            return false;
        }
        if attr_length > (len - off) as u64 {
            return true;
        }
        off = off + attr_length as usize;
    }
    true
}

} // verus!
