//! The decisions of the chunk-by-chunk signature scan. The caller reads the
//! disk: it asks [`ScanLoop::next_read`] where to read, reads, and reports the
//! outcome with [`ScanLoop::record_chunk`] or [`ScanLoop::record_read_failure`].

use vstd::prelude::*;
use crate::classifier::AIClassifier;
use crate::scanner::{
    lemma_deep_results_bound, enabled_view, search_signatures_deep, sector_count, sectors_searchable, spec_deep_results,
    views, FoundFile, FoundFileView, SCAN_CHUNK_SIZE,
};
use crate::signatures::FileType;

verus! {

/// Largest disk size the scan handles: offsets must stay representable in
/// 64 bits after the largest step the scan can take past a position of the
/// disk (a skip below 2^34 bytes), so the top 2^35 bytes of the range are
/// left out.
pub const MAX_SCAN_BYTES: u64 = 0xFFFF_FFF8_0000_0000;

/// Some file of `fs` starts at offset `o`.
pub open spec fn has_offset(fs: Seq<FoundFileView>, o: u64) -> bool {
    exists|i: int| 0 <= i < fs.len() && #[trigger] fs[i].offset == o
}

/// No two files of `fs` start at the same offset.
pub open spec fn distinct_offsets(fs: Seq<FoundFileView>) -> bool {
    forall|i: int, j: int| 0 <= i < j < fs.len() ==> #[trigger] fs[i].offset != #[trigger] fs[j].offset
}

/// Adds the `hits` of a chunk of length `chunk` to `found`, skipping offsets already
/// present. Returns the new list, the files added, and how far to skip: the
/// largest estimated size, among added files larger than the chunk with a
/// recoverability above 60%, or zero.
pub open spec fn spec_merge(found: Seq<FoundFileView>, hits: Seq<FoundFileView>, chunk: u64) -> (
    Seq<FoundFileView>,
    Seq<FoundFileView>,
    u64,
)
    decreases hits.len(),
{
    if hits.len() == 0 {
        (found, Seq::empty(), 0)
    } else {
        let (all, added, skip) = spec_merge(found, hits.drop_last(), chunk);
        let f = hits.last();
        if has_offset(all, f.offset) {
            (all, added, skip)
        } else {
            (
                all.push(f),
                added.push(f),
                if f.estimated_size > chunk && f.recoverability > 600 && f.estimated_size > skip {
                    f.estimated_size
                } else {
                    skip
                },
            )
        }
    }
}

/// How far the scan advances after a chunk of length `chunk`: the skip distance
/// rounded down to whole sectors, or the chunk length when nothing is skipped.
pub open spec fn spec_advance(skip: u64, chunk: u64) -> u64 {
    if skip > 0 {
        (skip / 512 * 512) as u64
    } else {
        chunk
    }
}

/// Abstract state of a scan.
pub struct ScanLoopView {
    pub total_bytes: u64,
    pub offset: u64,
    pub bytes_scanned: u64,
    pub found: Seq<FoundFileView>,
    pub finished: bool,
}

/// State of a signature scan over a disk of `total_bytes` bytes.
pub struct ScanLoop {
    total_bytes: u64,
    offset: u64,
    bytes_scanned: u64,
    found: Vec<FoundFile>,
    finished: bool,
}

impl View for ScanLoop {
    type V = ScanLoopView;

    closed spec fn view(&self) -> ScanLoopView {
        ScanLoopView {
            total_bytes: self.total_bytes,
            offset: self.offset,
            bytes_scanned: self.bytes_scanned,
            found: views(self.found@),
            finished: self.finished,
        }
    }
}

/// The invariant of a scan: the scanned byte count equals the offset reached,
/// found files have distinct offsets, and the offset stays within range.
pub open spec fn scan_well_formed(s: ScanLoopView) -> bool {
    &&& s.total_bytes <= MAX_SCAN_BYTES
    &&& s.offset <= MAX_SCAN_BYTES + 0x4_0000_0000
    &&& s.bytes_scanned == s.offset
    &&& distinct_offsets(s.found)
    &&& forall|i: int| 0 <= i < s.found.len() ==> #[trigger] s.found[i].estimated_size < 0x4_0000_0000
}

/// Whether the scan is over: a read came back empty or the end of the disk was reached.
pub open spec fn scan_over(s: ScanLoopView) -> bool {
    s.finished || s.offset >= s.total_bytes
}

/// Length of the next chunk to read: one chunk, or what remains of the disk.
pub open spec fn next_chunk_len(s: ScanLoopView) -> u64 {
    if s.total_bytes - s.offset < SCAN_CHUNK_SIZE {
        (s.total_bytes - s.offset) as u64
    } else {
        SCAN_CHUNK_SIZE
    }
}

/// Adding files keeps the earlier ones in place and their offsets distinct.
pub proof fn lemma_merge(found: Seq<FoundFileView>, hits: Seq<FoundFileView>, chunk: u64)
    requires
        distinct_offsets(found),
        forall|i: int| 0 <= i < found.len() ==> #[trigger] found[i].estimated_size < 0x4_0000_0000,
        forall|i: int| 0 <= i < hits.len() ==> #[trigger] hits[i].estimated_size < 0x4_0000_0000,
    ensures
        spec_merge(found, hits, chunk).0.len() >= found.len(),
        spec_merge(found, hits, chunk).0.subrange(0, found.len() as int) == found,
        spec_merge(found, hits, chunk).0 == found + spec_merge(found, hits, chunk).1,
        distinct_offsets(spec_merge(found, hits, chunk).0),
        forall|i: int| 0 <= i < spec_merge(found, hits, chunk).0.len() ==> #[trigger] spec_merge(found, hits, chunk).0[i].estimated_size < 0x4_0000_0000,
        spec_merge(found, hits, chunk).2 < 0x4_0000_0000,
    decreases hits.len(),
{
    if hits.len() > 0 {
        lemma_merge(found, hits.drop_last(), chunk);
        let (all, added, skip) = spec_merge(found, hits.drop_last(), chunk);
        let f = hits.last();
        if !has_offset(all, f.offset) {
            assert(all.push(f).subrange(0, found.len() as int) =~= all.subrange(0, found.len() as int));
            assert(all.push(f) =~= found + added.push(f));
            assert forall|i: int, j: int| 0 <= i < j < all.push(f).len() implies #[trigger] all.push(f)[i].offset
                != #[trigger] all.push(f)[j].offset by {
                if j == all.len() {
                    if all.push(f)[i].offset == f.offset {
                        assert(all[i].offset == f.offset);
                    }
                }
            }
        }
    } else {
        assert(found.subrange(0, found.len() as int) =~= found);
        assert(found + Seq::<FoundFileView>::empty() =~= found);
    }
}

impl ScanLoop {
    /// A scan of a disk of `total_bytes` bytes, at its start.
    pub fn new(total_bytes: u64) -> (s: Self)
        requires
            total_bytes <= MAX_SCAN_BYTES,
        ensures
            s@ == (ScanLoopView {
                total_bytes,
                offset: 0,
                bytes_scanned: 0,
                found: Seq::empty(),
                finished: false,
            }),
            scan_well_formed(s@),
    {
        let s = ScanLoop { total_bytes, offset: 0, bytes_scanned: 0, found: Vec::new(), finished: false };
        assert(views(s.found@) =~= Seq::<FoundFileView>::empty());
        s
    }

    /// Size of the disk.
    pub fn total_bytes(&self) -> (r: u64)
        ensures
            r == self@.total_bytes,
    {
        self.total_bytes
    }

    /// Offset the scan has reached.
    pub fn offset(&self) -> (r: u64)
        ensures
            r == self@.offset,
    {
        self.offset
    }

    /// Bytes scanned so far.
    pub fn bytes_scanned(&self) -> (r: u64)
        ensures
            r == self@.bytes_scanned,
    {
        self.bytes_scanned
    }

    /// Whether a read came back empty, which ends the scan.
    pub fn is_finished(&self) -> (r: bool)
        ensures
            r == self@.finished,
    {
        self.finished
    }

    /// Files found so far, in the order they were found.
    pub fn found_files(&self) -> (r: &Vec<FoundFile>)
        ensures
            views(r@) == self@.found,
    {
        &self.found
    }

    /// The files found, giving up the scan state.
    pub fn into_found_files(self) -> (r: Vec<FoundFile>)
        ensures
            views(r@) == self@.found,
    {
        self.found
    }

    /// Where and how much to read next (offset and length), or `None` when the scan is over.
    pub fn next_read(&self) -> (r: Option<(u64, usize)>)
        ensures
            scan_over(self@) ==> r is None,
            !scan_over(self@) ==> r == Some((self@.offset, next_chunk_len(self@) as usize)),
    {
        if self.finished || self.offset >= self.total_bytes {
            return None;
        }
        let remaining = self.total_bytes - self.offset;
        let n: u64 = if remaining < SCAN_CHUNK_SIZE {
            remaining
        } else {
            SCAN_CHUNK_SIZE
        };
        Some((self.offset, n as usize))
    }

    /// Records that the read of the next chunk failed: the chunk is skipped.
    pub fn record_read_failure(&mut self)
        requires
            scan_well_formed(old(self)@),
            !scan_over(old(self)@),
        ensures
            scan_well_formed(final(self)@),
            final(self)@ == (ScanLoopView {
                offset: (old(self)@.offset + next_chunk_len(old(self)@)) as u64,
                bytes_scanned: (old(self)@.bytes_scanned + next_chunk_len(old(self)@)) as u64,
                ..old(self)@
            }),
    {
        let remaining = self.total_bytes - self.offset;
        let n: u64 = if remaining < SCAN_CHUNK_SIZE {
            remaining
        } else {
            SCAN_CHUNK_SIZE
        };
        self.offset = self.offset + n;
        self.bytes_scanned = self.bytes_scanned + n;
    }

    /// Records the data read for the next chunk (possibly fewer bytes than asked
    /// for): an empty read ends the scan; otherwise the sectors are searched,
    /// files at new offsets are added, and the scan advances past the chunk or
    /// past the largest large, promising file found. Returns the files added.
    pub fn record_chunk(
        &mut self,
        data: &[u8],
        enabled_types: &Option<Vec<FileType>>,
        ai_classifier: &AIClassifier,
        sector_entropies: &Vec<u64>,
    ) -> (added: Vec<FoundFile>)
        requires
            scan_well_formed(old(self)@),
            !scan_over(old(self)@),
            data@.len() <= next_chunk_len(old(self)@),
            sector_entropies@.len() == sector_count(data@.len() as nat),
            sectors_searchable(data@, enabled_view(*enabled_types)),
        ensures
            scan_well_formed(final(self)@),
            final(self)@.total_bytes == old(self)@.total_bytes,
            data@.len() == 0 ==> final(self)@ == (ScanLoopView { finished: true, ..old(self)@ })
                && added@.len() == 0,
            data@.len() > 0 ==> ({
                let chunk = next_chunk_len(old(self)@);
                let hits = spec_deep_results(
                    data@,
                    old(self)@.offset,
                    enabled_view(*enabled_types),
                    sector_entropies@,
                    sector_count(data@.len() as nat),
                );
                let (all, new_files, skip) = spec_merge(old(self)@.found, hits, chunk);
                &&& final(self)@.found == all
                &&& views(added@) == new_files
                &&& final(self)@.offset == old(self)@.offset + spec_advance(skip, chunk)
                &&& final(self)@.bytes_scanned == old(self)@.bytes_scanned + spec_advance(skip, chunk)
                &&& final(self)@.finished == old(self)@.finished
            }),
    {
        if data.len() == 0 {
            self.finished = true;
            return Vec::new();
        }
        let remaining = self.total_bytes - self.offset;
        let chunk: u64 = if remaining < SCAN_CHUNK_SIZE {
            remaining
        } else {
            SCAN_CHUNK_SIZE
        };
        let hits = search_signatures_deep(data, self.offset, enabled_types, ai_classifier, sector_entropies);
        let ghost hits_view = views(hits@);
        let ghost old_found = self@.found;
        proof {
            lemma_deep_results_bound(
                data@,
                self.offset,
                enabled_view(*enabled_types),
                sector_entropies@,
                sector_count(data@.len() as nat),
            );
            assert(hits_view.subrange(0, 0) =~= Seq::<FoundFileView>::empty());
        }
        let mut added: Vec<FoundFile> = Vec::new();
        let mut skip: u64 = 0;
        let mut idx: usize = 0;
        while idx < hits.len()
            invariant
                idx <= hits@.len(),
                hits_view == views(hits@),
                self.offset == old(self).offset,
                self.bytes_scanned == old(self).bytes_scanned,
                self.total_bytes == old(self).total_bytes,
                self.finished == old(self).finished,
                self.offset < self.total_bytes,
                self.total_bytes <= MAX_SCAN_BYTES,
                self.bytes_scanned == self.offset,
                chunk == next_chunk_len(old(self)@),
                forall|i: int| 0 <= i < hits_view.len() ==> #[trigger] hits_view[i].estimated_size < 0x4_0000_0000,
                distinct_offsets(old_found),
                forall|i: int| 0 <= i < old_found.len() ==> #[trigger] old_found[i].estimated_size < 0x4_0000_0000,
                spec_merge(old_found, hits_view.subrange(0, idx as int), chunk) == (views(self.found@), views(added@), skip),
            decreases hits@.len() - idx,
        {
            proof {
                assert(hits_view.subrange(0, idx + 1).drop_last() =~= hits_view.subrange(0, idx as int));
                lemma_merge(old_found, hits_view.subrange(0, idx as int), chunk);
            }
            let f = &hits[idx];
            let mut present = false;
            let mut j: usize = 0;
            while j < self.found.len()
                invariant
                    j <= self.found@.len(),
                    self.offset == old(self).offset,
                    !present ==> forall|k: int| 0 <= k < j ==> views(self.found@)[k].offset != f.offset,
                    present ==> has_offset(views(self.found@), f.offset),
                decreases self.found@.len() - j,
            {
                if self.found[j].offset == f.offset {
                    present = true;
                    assert(views(self.found@)[j as int].offset == f.offset);
                }
                j += 1;
            }
            if !present {
                let g = f.duplicate();
                let h = f.duplicate();
                if g.estimated_size > chunk && g.recoverability > 600 && g.estimated_size > skip {
                    skip = g.estimated_size;
                }
                self.found.push(g);
                added.push(h);
            }
            idx += 1;
            proof {
                assert(views(self.found@) =~= spec_merge(old_found, hits_view.subrange(0, idx as int), chunk).0);
                assert(views(added@) =~= spec_merge(old_found, hits_view.subrange(0, idx as int), chunk).1);
            }
        }
        proof {
            assert(hits_view.subrange(0, hits_view.len() as int) =~= hits_view);
            lemma_merge(old_found, hits_view, chunk);
            assert(skip == spec_merge(old_found, hits_view, chunk).2);
            assert(skip / 512 * 512 <= skip) by (nonlinear_arith);
        }
        let advance = if skip > 0 {
            skip / 512 * 512
        } else {
            chunk
        };
        self.offset = self.offset + advance;
        self.bytes_scanned = self.bytes_scanned + advance;
        added
    }
}

/// Progress of a scan.
pub struct ScanProgress {
    pub bytes_scanned: u64,
    pub total_bytes: u64,
    pub files_found: u64,
    pub current_offset: u64,
    pub is_running: bool,
    pub is_paused: bool,
}

impl ScanProgress {
    /// Progress of a scan of `total_bytes` bytes that has not started.
    pub fn new(total_bytes: u64) -> (p: Self)
        ensures
            p.total_bytes == total_bytes,
            p.bytes_scanned == 0,
            p.files_found == 0,
            p.current_offset == 0,
            !p.is_running,
            !p.is_paused,
    {
        ScanProgress {
            bytes_scanned: 0,
            total_bytes,
            files_found: 0,
            current_offset: 0,
            is_running: false,
            is_paused: false,
        }
    }
}

/// Outcome of a scan.
pub struct ScanResult {
    pub drive: String,
    pub total_bytes: u64,
    pub files_found: Vec<FoundFile>,
    pub scan_time_ms: u64,
    pub success: bool,
    pub error_message: Option<String>,
}

/// The message of a scan stopped by the user.
pub open spec fn stopped_message() -> Seq<char> {
    "Escaneo detenido por usuario"@
}

/// The message of a scan of a disk whose size is unknown.
pub open spec fn unknown_size_message() -> Seq<char> {
    "No se pudo detectar el tamaño del disco"@
}

impl ScanResult {
    /// A failed scan with an error message.
    pub fn failure(drive: String, message: String) -> (r: Self)
        ensures
            r.drive@ == drive@,
            r.total_bytes == 0,
            r.files_found@.len() == 0,
            r.scan_time_ms == 0,
            !r.success,
            r.error_message matches Some(m) && m@ == message@,
    {
        ScanResult {
            drive,
            total_bytes: 0,
            files_found: Vec::new(),
            scan_time_ms: 0,
            success: false,
            error_message: Some(message),
        }
    }

    /// The failed scan of a disk whose size could not be found.
    pub fn unknown_disk_size(drive: String) -> (r: Self)
        ensures
            r.drive@ == drive@,
            r.total_bytes == 0,
            r.files_found@.len() == 0,
            r.scan_time_ms == 0,
            !r.success,
            r.error_message matches Some(m) && m@ == unknown_size_message(),
    {
        ScanResult::failure(drive, String::from_str("No se pudo detectar el tamaño del disco"))
    }

    /// The result of listing the files of a file system on `drive` whose
    /// clusters are `cluster_size` bytes: a success holding `files`, with
    /// an estimated size of a thousand clusters.
    pub fn listing(drive: String, cluster_size: u64, files: Vec<FoundFile>, scan_time_ms: u64) -> (r: Self)
        requires
            cluster_size * 1000 <= u64::MAX,
        ensures
            r.drive@ == drive@,
            r.total_bytes == cluster_size * 1000,
            views(r.files_found@) == views(files@),
            r.scan_time_ms == scan_time_ms,
            r.success,
            r.error_message is None,
    {
        ScanResult {
            drive,
            total_bytes: cluster_size * 1000,
            files_found: files,
            scan_time_ms,
            success: true,
            error_message: None,
        }
    }
}

impl ScanLoop {
    /// The start of a scan of `drive`, a disk of `total_bytes` bytes: the scan
    /// at its start, or, when the size of the disk is unknown (zero), the
    /// failed result, with nothing scanned.
    pub fn start(drive: String, total_bytes: u64) -> (r: Result<ScanLoop, ScanResult>)
        requires
            total_bytes <= MAX_SCAN_BYTES,
        ensures
            total_bytes == 0 ==> (r matches Err(res) && res.drive@ == drive@ && res.total_bytes == 0
                && res.files_found@.len() == 0 && res.scan_time_ms == 0 && !res.success
                && (res.error_message matches Some(m) && m@ == unknown_size_message())),
            total_bytes > 0 ==> (r matches Ok(s) && s@ == (ScanLoopView {
                total_bytes,
                offset: 0,
                bytes_scanned: 0,
                found: Seq::empty(),
                finished: false,
            }) && scan_well_formed(s@)),
    {
        if total_bytes == 0 {
            Err(ScanResult::unknown_disk_size(drive))
        } else {
            Ok(ScanLoop::new(total_bytes))
        }
    }

    /// The result of a finished (or stopped) scan of `drive` that took `scan_time_ms`.
    pub fn into_result(self, drive: String, scan_time_ms: u64, was_stopped: bool) -> (r: ScanResult)
        ensures
            r.drive@ == drive@,
            r.total_bytes == self@.total_bytes,
            views(r.files_found@) == self@.found,
            scan_well_formed(self@) ==> distinct_offsets(views(r.files_found@)),
            r.scan_time_ms == scan_time_ms,
            r.success,
            was_stopped ==> (r.error_message matches Some(m) && m@ == stopped_message()),
            !was_stopped ==> r.error_message is None,
    {
        let total_bytes = self.total_bytes;
        let files_found = self.into_found_files();
        ScanResult {
            drive,
            total_bytes,
            files_found,
            scan_time_ms,
            success: true,
            error_message: if was_stopped {
                Some(String::from_str("Escaneo detenido por usuario"))
            } else {
                None
            },
        }
    }
}

/// The files of `fs` of type `t`, in order.
pub open spec fn spec_files_of_type(fs: Seq<FoundFileView>, t: FileType) -> Seq<FoundFileView> {
    fs.filter(|f: FoundFileView| f.file_type == t)
}

/// The files of `fs` whose type belongs to category `c`, in order.
pub open spec fn spec_files_of_category(fs: Seq<FoundFileView>, c: Seq<char>) -> Seq<FoundFileView> {
    fs.filter(|f: FoundFileView| crate::signatures::spec_category(f.file_type) == c)
}

/// The files of type `t`, in order.
pub fn get_files_by_type(files: &Vec<FoundFile>, t: FileType) -> (r: Vec<FoundFile>)
    ensures
        views(r@) == spec_files_of_type(views(files@), t),
{
    let mut r: Vec<FoundFile> = Vec::new();
    let mut i: usize = 0;
    while i < files.len()
        invariant
            i <= files@.len(),
            views(r@) == spec_files_of_type(views(files@).subrange(0, i as int), t),
        decreases files@.len() - i,
    {
        proof {
            assert(views(files@).subrange(0, i + 1).drop_last() =~= views(files@).subrange(0, i as int));
            reveal_with_fuel(Seq::filter, 1);
        }
        if files[i].file_type == t {
            r.push(files[i].duplicate());
        }
        i += 1;
        assert(views(r@) =~= spec_files_of_type(views(files@).subrange(0, i as int), t));
    }
    assert(views(files@).subrange(0, files@.len() as int) =~= views(files@));
    r
}

/// The files whose type belongs to category `category`, in order.
pub fn get_files_by_category(files: &Vec<FoundFile>, category: &str) -> (r: Vec<FoundFile>)
    ensures
        views(r@) == spec_files_of_category(views(files@), category@),
{
    let mut r: Vec<FoundFile> = Vec::new();
    let mut i: usize = 0;
    while i < files.len()
        invariant
            i <= files@.len(),
            views(r@) == spec_files_of_category(views(files@).subrange(0, i as int), category@),
        decreases files@.len() - i,
    {
        proof {
            assert(views(files@).subrange(0, i + 1).drop_last() =~= views(files@).subrange(0, i as int));
            reveal_with_fuel(Seq::filter, 1);
        }
        if crate::text::str_equal(files[i].file_type.category(), category) {
            r.push(files[i].duplicate());
        }
        i += 1;
        assert(views(r@) =~= spec_files_of_category(views(files@).subrange(0, i as int), category@));
    }
    assert(views(files@).subrange(0, files@.len() as int) =~= views(files@));
    r
}

} // verus!
