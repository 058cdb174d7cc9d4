//! Properties that hold across the library's operations.

use vstd::prelude::*;
use crate::bytes::{first_match, lemma_first_match};
use crate::classifier::{spec_confidence, spec_predict};
use crate::drive_info::{removable, spec_removable, DriveInfo, DriveType};
use crate::entropy::{spec_classify_entropy, EntropyClass};
use crate::filesystem::{spec_fat_record, spec_fat_subdir, FatWalkView, FsLayout, MAX_DIRECTORY_DEPTH};
use crate::recovery::{dir_after_sets, default_hash_of, hashed_prefix, copy_done, files_in, grouping, spec_next_step, spec_read_size, spec_record, CopyStep, CopyView};
use crate::ui::{tally_after, REPORTED_NAMES, count_picked, spec_console_push, spec_page_window, with_selection, CONSOLE_CAPACITY};
use crate::scan_loop::{scan_well_formed, ScanLoopView, distinct_offsets, has_offset, lemma_merge, spec_advance, spec_merge};
use crate::scanner::FoundFileView;
use crate::text::{hex_digit_lower, spec_hex_lower};
use crate::signatures::{
    signature_matches, spec_categories, spec_category, spec_detect_index, spec_signature_database, FileType,
};

verus! {

/// A chunk's findings never drop, reorder or duplicate the files found
/// before: the new list is the old one followed by the files added, and no
/// two files share an offset.
pub proof fn law_scan_keeps_found_files(found: Seq<FoundFileView>, hits: Seq<FoundFileView>, chunk: u64)
    requires
        distinct_offsets(found),
        forall|i: int| 0 <= i < found.len() ==> #[trigger] found[i].estimated_size < 0x4_0000_0000,
        forall|i: int| 0 <= i < hits.len() ==> #[trigger] hits[i].estimated_size < 0x4_0000_0000,
    ensures
        spec_merge(found, hits, chunk).0 == found + spec_merge(found, hits, chunk).1,
        distinct_offsets(spec_merge(found, hits, chunk).0),
        forall|i: int| 0 <= i < spec_merge(found, hits, chunk).1.len() ==> !has_offset(found, #[trigger] spec_merge(found, hits, chunk).1[i].offset),
    decreases hits.len(),
{
    lemma_merge(found, hits, chunk);
    let (all, added, skip) = spec_merge(found, hits, chunk);
    assert forall|i: int| 0 <= i < added.len() implies !has_offset(found, #[trigger] added[i].offset) by {
        if has_offset(found, added[i].offset) {
            let j = choose|j: int| 0 <= j < found.len() && #[trigger] found[j].offset == added[i].offset;
            assert(all[j] == found[j]);
            assert(all[found.len() + i] == added[i]);
        }
    }
}

/// A chunk whose findings were all found before adds nothing and lets the
/// scan move on by the whole chunk: a scan always makes progress.
pub proof fn law_scan_progress(found: Seq<FoundFileView>, hits: Seq<FoundFileView>, chunk: u64)
    requires
        forall|i: int| 0 <= i < hits.len() ==> has_offset(found, #[trigger] hits[i].offset),
    ensures
        spec_merge(found, hits, chunk).0 == found,
        spec_merge(found, hits, chunk).1.len() == 0,
        spec_merge(found, hits, chunk).2 == 0,
        spec_advance(spec_merge(found, hits, chunk).2, chunk) == chunk,
    decreases hits.len(),
{
    if hits.len() > 0 {
        law_scan_progress(found, hits.drop_last(), chunk);
        assert(has_offset(found, hits.last().offset)) by {
            assert(hits[hits.len() - 1] == hits.last());
        }
    }
}

/// The signature that detection reports is one whose magic bytes the data
/// carries; when it reports none, no signature of the database matches.
pub proof fn law_detected_signature_matches(d: Seq<u8>)
    ensures
        spec_detect_index(d) matches Some(i) ==> 0 <= i < spec_signature_database().len()
            && signature_matches(spec_signature_database()[i], d),
        spec_detect_index(d) is None ==> forall|i: int| 0 <= i < spec_signature_database().len()
            ==> !signature_matches(#[trigger] spec_signature_database()[i], d),
{
    lemma_first_match(crate::signatures::database_match(d), 0, spec_signature_database().len() as int);
    if spec_detect_index(d) is None {
        assert forall|i: int| 0 <= i < spec_signature_database().len() implies !signature_matches(
            #[trigger] spec_signature_database()[i],
            d,
        ) by {
            assert(!crate::signatures::database_match(d)(i));
        }
    }
}

/// The category of every file type is one of the categories offered for filtering.
pub proof fn law_every_category_listed(t: FileType)
    ensures
        spec_categories().contains(spec_category(t)),
{
    let c = spec_categories();
    assert(c[0] == "Imágenes"@);
    assert(c[1] == "Documentos"@);
    assert(c[2] == "Archivos"@);
    assert(c[3] == "Audio"@);
    assert(c[4] == "Video"@);
    assert(c[5] == "Ejecutables"@);
    assert(c[6] == "Otros"@);
}

/// Rank of an entropy class, from the most repetitive data to the most random.
pub open spec fn entropy_rank(c: EntropyClass) -> int {
    match c {
        EntropyClass::VeryLow => 0,
        EntropyClass::Low => 1,
        EntropyClass::Medium => 2,
        EntropyClass::High => 3,
        EntropyClass::VeryHigh => 4,
    }
}

/// More entropy never gives a lower class: empty or repetitive sectors
/// rank lowest, encrypted or compressed data highest.
pub proof fn law_entropy_class_monotone(a: u64, b: u64)
    requires
        a <= b,
    ensures
        entropy_rank(spec_classify_entropy(a)) <= entropy_rank(spec_classify_entropy(b)),
{
}

/// A recovery prediction's probability and confidence are percentages
/// (tenths, 0 to 1000), and so is the classification's combined confidence
/// at its top.
pub proof fn law_prediction_bounded(d: Seq<u8>, t: FileType, e: u64, valid: bool, guess: int)
    ensures
        0 <= spec_predict(d, t, e, valid).probability <= 1000,
        0 <= spec_predict(d, t, e, valid).confidence <= 1000,
        spec_confidence(guess, spec_predict(d, t, e, valid).confidence) <= 1000,
{
}

/// Each file that `files_in` gathers for category `c` stands among the first
/// `n` files with that category.
pub proof fn lemma_files_in_members(files: Seq<Seq<char>>, cats: Seq<Option<Seq<char>>>, c: Seq<char>, n: int, p: int)
    requires
        0 <= n <= files.len(),
        n <= cats.len(),
        0 <= p < files_in(files, cats, c, n).len(),
    ensures
        exists|k: int| 0 <= k < n && cats[k] == Some(c) && files[k] == #[trigger] files_in(files, cats, c, n)[p],
    decreases n,
{
    if n > 0 {
        let prev = files_in(files, cats, c, n - 1);
        if cats[n - 1] == Some(c) && p == prev.len() {
            assert(files_in(files, cats, c, n)[p] == files[n - 1]);
        } else {
            lemma_files_in_members(files, cats, c, n - 1, p);
            let k = choose|k: int| 0 <= k < n - 1 && cats[k] == Some(c) && files[k] == #[trigger] prev[p];
            assert(files_in(files, cats, c, n)[p] == prev[p]);
        }
    }
}

/// Files with a category gathered for `c` include file `k` when its category is `c`.
pub proof fn lemma_files_in_contains(files: Seq<Seq<char>>, cats: Seq<Option<Seq<char>>>, c: Seq<char>, n: int, k: int)
    requires
        0 <= k < n <= files.len(),
        n <= cats.len(),
        cats[k] == Some(c),
    ensures
        files_in(files, cats, c, n).contains(files[k]),
    decreases n,
{
    if k == n - 1 {
        assert(files_in(files, cats, c, n).last() == files[k]);
    } else {
        lemma_files_in_contains(files, cats, c, n - 1, k);
        let prev = files_in(files, cats, c, n - 1);
        let j = choose|j: int| 0 <= j < prev.len() && prev[j] == files[k];
        if cats[n - 1] == Some(c) {
            assert(files_in(files, cats, c, n)[j] == prev[j]);
        }
    }
}

/// Organizing recovered files by type puts every file with a category in
/// the group of that category; no two groups share a category.
pub proof fn law_grouping_complete(
    groups: Seq<(Seq<char>, Seq<Seq<char>>)>,
    files: Seq<Seq<char>>,
    cats: Seq<Option<Seq<char>>>,
)
    requires
        files.len() == cats.len(),
        grouping(groups, files, cats),
    ensures
        forall|k: int| 0 <= k < files.len() && #[trigger] cats[k] is Some ==> exists|i: int|
            0 <= i < groups.len() && groups[i].0 == cats[k]->0 && groups[i].1.contains(files[k]),
        forall|i: int, j: int| 0 <= i < j < groups.len() ==> groups[i].0 != groups[j].0,
{
    assert forall|k: int| 0 <= k < files.len() && #[trigger] cats[k] is Some implies exists|i: int|
        0 <= i < groups.len() && groups[i].0 == cats[k]->0 && groups[i].1.contains(files[k]) by {
        let i = choose|i: int| 0 <= i < groups.len() && groups[i].0 == cats[k]->0;
        assert(groups[i].1 == files_in(files, cats, groups[i].0, files.len() as int));
        lemma_files_in_contains(files, cats, cats[k]->0, files.len() as int, k);
    }
}

/// A group made by organizing files by type holds only files of its own category.
pub proof fn law_grouping_sound(
    groups: Seq<(Seq<char>, Seq<Seq<char>>)>,
    files: Seq<Seq<char>>,
    cats: Seq<Option<Seq<char>>>,
    i: int,
    p: int,
)
    requires
        files.len() == cats.len(),
        grouping(groups, files, cats),
        0 <= i < groups.len(),
        0 <= p < groups[i].1.len(),
    ensures
        exists|k: int| 0 <= k < files.len() && cats[k] == Some(groups[i].0) && files[k] == #[trigger] groups[i].1[p],
{
    assert(groups[i].1 == files_in(files, cats, groups[i].0, files.len() as int));
    lemma_files_in_members(files, cats, groups[i].0, files.len() as int, p);
}

/// The depth of every directory being read stays within the limit.
pub open spec fn depths_bounded(w: FatWalkView) -> bool {
    forall|i: int| 0 <= i < w.frames.len() ==> #[trigger] w.frames[i].depth <= MAX_DIRECTORY_DEPTH
}

/// Walking a FAT directory tree never opens a directory deeper than the
/// limit, whatever the entries read.
pub proof fn law_fat_depth_bounded(w: FatWalkView, l: FsLayout, e: Seq<u8>)
    requires
        w.frames.len() > 0,
        depths_bounded(w),
    ensures
        depths_bounded(spec_fat_record(w, l, e)),
{
    let top = w.frames.last();
    assert(top.depth <= MAX_DIRECTORY_DEPTH) by {
        assert(w.frames[w.frames.len() - 1] == top);
    }
    let r = spec_fat_record(w, l, e);
    assert forall|i: int| 0 <= i < r.frames.len() implies #[trigger] r.frames[i].depth <= MAX_DIRECTORY_DEPTH by {
        if i < w.frames.len() - 1 {
            assert(r.frames[i] == w.frames.drop_last()[i]);
        }
    }
}

/// Only removable drives are offered as removable.
pub proof fn law_removable_only(drives: Seq<DriveInfo>)
    ensures
        forall|i: int| 0 <= i < spec_removable(drives).len() ==> #[trigger] spec_removable(drives)[i].drive_type == DriveType::Removable,
        forall|i: int| 0 <= i < drives.len() && #[trigger] drives[i].drive_type == DriveType::Removable ==> spec_removable(drives).contains(drives[i]),
{
    assert forall|i: int| 0 <= i < spec_removable(drives).len() implies #[trigger] spec_removable(drives)[i].drive_type == DriveType::Removable by {
        drives.lemma_filter_pred(removable(), i);
    }
    assert forall|i: int| 0 <= i < drives.len() && #[trigger] drives[i].drive_type == DriveType::Removable implies spec_removable(drives).contains(drives[i]) by {
        drives.lemma_filter_contains_rev(removable(), drives[i]);
    }
}

/// Recovery always reads something: the read size is never zero.
pub proof fn law_read_size_positive(estimated_size: u64, t: FileType)
    ensures
        spec_read_size(estimated_size, t) > 0,
{
}


/// The console never holds more than its capacity, and the newest message is last.
pub proof fn law_console_bounded<T>(msgs: Seq<T>, m: T)
    requires
        msgs.len() <= CONSOLE_CAPACITY,
    ensures
        spec_console_push(msgs, m).len() <= CONSOLE_CAPACITY,
        spec_console_push(msgs, m).last() == m,
{
}

/// Files selected in a list.
pub open spec fn selected_count(fs: Seq<FoundFileView>) -> nat {
    count_picked(fs, |f: FoundFileView| f.selected)
}

/// A selection reports as many files as it leaves selected.
pub proof fn law_selection_count(files: Seq<FoundFileView>, sel: spec_fn(FoundFileView) -> bool)
    ensures
        selected_count(with_selection(files, sel)) == count_picked(files, sel),
    decreases files.len(),
{
    if files.len() > 0 {
        assert(with_selection(files, sel).drop_last() =~= with_selection(files.drop_last(), sel));
        law_selection_count(files.drop_last(), sel);
    }
}

/// A copy never reads outside the file being recovered: each read starts
/// where the bytes copied so far end, asks for something, and stops at the
/// file's end.
pub proof fn law_copy_reads_within(c: CopyView)
    requires
        c.written <= c.total,
        c.start + c.total <= u64::MAX,
    ensures
        spec_next_step(c) matches CopyStep::Read { offset, len } ==> {
            &&& offset == c.start + c.written
            &&& len > 0
            &&& offset + len <= c.start + c.total
        },
        spec_next_step(c) is Done <==> copy_done(c),
{
}

/// Reads that return all they asked for continue where the last one ended,
/// and the bytes copied never exceed the file: a copy is contiguous.
pub proof fn law_copy_contiguous(c: CopyView)
    requires
        c.written <= c.total,
        c.start + c.total <= u64::MAX,
        spec_next_step(c) is Read,
    ensures
        ({
            let (offset, len) = match spec_next_step(c) {
                CopyStep::Read { offset, len } => (offset, len),
                CopyStep::Done => (0u64, 0u64),
            };
            let after = spec_record(c, len, Some(len));
            &&& after.written <= after.total
            &&& spec_next_step(after) matches CopyStep::Read { offset: next, len: _ } ==> next == offset + len
        }),
{
}

/// The page shown lies inside the list and holds at most one page of files.
pub proof fn law_page_in_range(total: int, per_page: int, current: int)
    requires
        total > 0,
        per_page > 0,
        current >= 0,
    ensures
        ({
            let (pages, page, start, end) = spec_page_window(total, per_page, current);
            &&& 0 <= page < pages
            &&& 0 <= start <= end <= total
            &&& end - start <= per_page
        }),
{
    let pages = (total + per_page - 1) / per_page;
    assert(pages >= 1) by (nonlinear_arith)
        requires
            pages == (total + per_page - 1) / per_page,
            per_page > 0,
            total >= 1,
    ;
    let page = if current >= pages && pages > 0 {
        pages - 1
    } else {
        current
    };
    assert(page * per_page < total) by (nonlinear_arith)
        requires
            page < pages,
            pages == (total + per_page - 1) / per_page,
            per_page > 0,
            page >= 0,
    ;
    assert(page * per_page >= 0) by (nonlinear_arith)
        requires
            page >= 0,
            per_page > 0,
    ;
}

} // verus!

verus! {

/// `16` to the power `k`.
pub open spec fn pow16(k: nat) -> nat
    decreases k,
{
    if k == 0 {
        1
    } else {
        16 * pow16((k - 1) as nat)
    }
}

/// A lower-case hexadecimal digit: `0` to `9` or `a` to `f`.
pub open spec fn is_lower_hex_digit(c: char) -> bool {
    (48 <= (c as u32) && (c as u32) <= 57) || (97 <= (c as u32) && (c as u32) <= 102)
}

/// The lower-case hexadecimal form of a number below `16^k` has 1 to `k`
/// digits, each a lower-case hexadecimal digit.
pub proof fn lemma_hex_lower_shape(n: nat, k: nat)
    requires
        k >= 1,
        n < pow16(k),
    ensures
        1 <= spec_hex_lower(n).len() <= k,
        forall|i: int| 0 <= i < spec_hex_lower(n).len() ==> is_lower_hex_digit(#[trigger] spec_hex_lower(n)[i]),
    decreases n,
{
    if n >= 16 {
        assert(k >= 2) by {
            if k == 1 {
                assert(pow16(1) == 16 * pow16(0));
            }
        }
        let k1 = (k - 1) as nat;
        assert(n / 16 < pow16(k1)) by (nonlinear_arith)
            requires
                n < pow16(k),
                pow16(k) == 16 * pow16(k1),
        ;
        lemma_hex_lower_shape(n / 16, k1);
        let d = n % 16;
        assert(is_lower_hex_digit(hex_digit_lower(d)));
    } else {
        assert(is_lower_hex_digit(hex_digit_lower(n)));
    }
}

/// A content hash is one to sixteen lower-case hexadecimal digits, and it
/// depends only on the first 4096 bytes: two inputs that agree on them (or
/// are equal) get the same hash.
pub proof fn law_content_hash_form(a: Seq<u8>, b: Seq<u8>)
    ensures
        1 <= spec_hex_lower(default_hash_of(hashed_prefix(a)) as nat).len() <= 16,
        forall|i: int| 0 <= i < spec_hex_lower(default_hash_of(hashed_prefix(a)) as nat).len()
            ==> is_lower_hex_digit(#[trigger] spec_hex_lower(default_hash_of(hashed_prefix(a)) as nat)[i]),
        hashed_prefix(a) == hashed_prefix(b) ==> spec_hex_lower(default_hash_of(hashed_prefix(a)) as nat)
            == spec_hex_lower(default_hash_of(hashed_prefix(b)) as nat),
        a.len() >= 4096 && b.len() >= 4096 && a.subrange(0, 4096) == b.subrange(0, 4096)
            ==> hashed_prefix(a) == hashed_prefix(b),
{
    assert(pow16(16) == 0x1_0000_0000_0000_0000nat) by {
        reveal_with_fuel(pow16, 17);
    }
    lemma_hex_lower_shape(default_hash_of(hashed_prefix(a)) as nat, 16);
    if a.len() >= 4096 && b.len() >= 4096 && a.subrange(0, 4096) == b.subrange(0, 4096) {
        if a.len() == 4096 {
            assert(a.subrange(0, 4096) =~= a);
        }
        if b.len() == 4096 {
            assert(b.subrange(0, 4096) =~= b);
        }
    }
}

} // verus!

verus! {

/// After an engine is made with directory `start` and its directory is set
/// to each of `paths` in turn, the engine reports the last path set, or
/// `start` when none was.
pub proof fn law_output_dir_last_set(start: Seq<char>, paths: Seq<Seq<char>>)
    ensures
        dir_after_sets(start, paths) == if paths.len() == 0 {
            start
        } else {
            paths.last()
        },
{
}

} // verus!

verus! {

/// Every state a scan reaches through its steps is well formed (each step
/// keeps [`scan_well_formed`]), and a well-formed scan holds no two files at
/// the same offset: no file is reported twice.
pub proof fn law_scan_reports_each_offset_once(s: ScanLoopView)
    requires
        scan_well_formed(s),
    ensures
        distinct_offsets(s.found),
        forall|i: int, j: int| 0 <= i < s.found.len() && 0 <= j < s.found.len() && i != j
            ==> #[trigger] s.found[i].offset != #[trigger] s.found[j].offset,
{
    assert forall|i: int, j: int| 0 <= i < s.found.len() && 0 <= j < s.found.len() && i != j
        implies #[trigger] s.found[i].offset != #[trigger] s.found[j].offset by {
        if i < j {
            assert(s.found[i].offset != s.found[j].offset);
        } else {
            assert(s.found[j].offset != s.found[i].offset);
        }
    }
}

} // verus!

verus! {

/// Over any sequence of recovery outcomes, the tally keeps the names of the
/// first recovered files: as many as were recovered, at most five, in the
/// order they were recovered; successes and failures add up to the outcomes.
pub proof fn law_tally_keeps_first_names(events: Seq<Option<Seq<char>>>)
    ensures
        tally_after(events).2.len() == if tally_after(events).0 < REPORTED_NAMES {
            tally_after(events).0
        } else {
            REPORTED_NAMES as int
        },
        tally_after(events).0 + tally_after(events).1 == events.len(),
        tally_after(events).0 >= 0 && tally_after(events).1 >= 0,
    decreases events.len(),
{
    if events.len() > 0 {
        law_tally_keeps_first_names(events.drop_last());
    }
}

} // verus!

verus! {

// ---------------------------------------------------------------- ZIP size

/// The central-directory size recorded in an end-of-central-directory
/// record at `i` (bytes 12 to 15, little-endian).
pub open spec fn eocd_directory_size(d: Seq<u8>, i: int) -> int {
    d[i + 12] + 256 * d[i + 13] + 65536 * d[i + 14] + 16777216 * d[i + 15]
}

/// The central-directory offset recorded in an end-of-central-directory
/// record at `i` (bytes 16 to 19, little-endian).
pub open spec fn eocd_directory_offset(d: Seq<u8>, i: int) -> int {
    d[i + 16] + 256 * d[i + 17] + 65536 * d[i + 18] + 16777216 * d[i + 19]
}

/// The comment length recorded in an end-of-central-directory record at
/// `i` (bytes 20 and 21, little-endian).
pub open spec fn eocd_comment_length(d: Seq<u8>, i: int) -> int {
    d[i + 20] + 256 * d[i + 21]
}

/// The length of a ZIP archive whose end-of-central-directory record is at
/// `i`: up to the end of its central directory, then the 22-byte record and
/// its comment.
pub open spec fn archive_length(d: Seq<u8>, i: int) -> int {
    eocd_directory_offset(d, i) + eocd_directory_size(d, i) + 22 + eocd_comment_length(d, i)
}

/// A whole end-of-central-directory record (`PK 05 06`) at `i`, whose
/// archive length is plausible (positive and under ten gigabytes).
pub open spec fn eocd_record(d: Seq<u8>, i: int) -> bool {
    &&& 0 <= i
    &&& i + 22 <= d.len()
    &&& d[i] == 0x50 && d[i + 1] == 0x4B && d[i + 2] == 0x05 && d[i + 3] == 0x06
    &&& 0 < archive_length(d, i) < 10_000_000_000
}

/// The size estimate of ZIP data is read from its last plausible
/// end-of-central-directory record: the central directory's offset plus its
/// size, the record and its comment. So the recovered archive always
/// reaches the end of its central directory.
pub proof fn law_zip_size_covers_central_directory(d: Seq<u8>, i: int)
    requires
        eocd_record(d, i),
        forall|j: int| i < j ==> !#[trigger] eocd_record(d, j),
    ensures
        crate::signatures::spec_estimate_size(FileType::Zip, d) == Some(archive_length(d, i) as u64),
        crate::signatures::spec_estimate_size(FileType::Zip, d)->0 >= eocd_directory_offset(d, i)
            + eocd_directory_size(d, i) + 22,
{
    let p = crate::signatures::zip_eocd_at(d);
    let hi = crate::signatures::sat_sub(d.len() as int, 21);
    assert(p(i));
    crate::bytes::lemma_last_match(p, 0, hi);
    match crate::bytes::last_match(p, 0, hi) {
        Some(k) => {
            if k > i {
                assert(p(k));
                assert(eocd_record(d, k));
            } else if k < i {
                assert(!p(i));
            }
        },
        None => {
            assert(!p(i));
        },
    }
}

// ---------------------------------------------------------------- PNG end

/// The chunk type `IEND` at `i`.
pub open spec fn iend_at(d: Seq<u8>, i: int) -> bool {
    0 <= i && i + 4 <= d.len() && d[i] == 0x49 && d[i + 1] == 0x45 && d[i + 2] == 0x4E && d[i + 3] == 0x44
}

/// Recovered PNG data is cut twelve bytes after its first `IEND` (the
/// chunk type, its CRC and the length before it): what follows the last
/// chunk is dropped.
pub proof fn law_png_cut_after_first_iend(d: Seq<u8>, i: int)
    requires
        iend_at(d, i),
        i + 12 <= d.len(),
        forall|j: int| 0 <= j < i ==> !#[trigger] iend_at(d, j),
    ensures
        crate::recovery::file_end_defined(d, FileType::Png),
        crate::recovery::spec_file_end(d, FileType::Png) == i + 12,
        d.subrange(0, crate::recovery::spec_file_end(d, FileType::Png)) == d.subrange(0, i + 12),
        i + 12 < d.len() ==> crate::recovery::spec_file_end(d, FileType::Png) < d.len(),
{
    let pat = crate::classifier::png_iend();
    let p = crate::bytes::pattern_at(d, pat, 0);
    let hi = crate::signatures::sat_sub(d.len() as int, 4);
    assert(d.subrange(i, i + 4) =~= pat);
    assert(p(i));
    crate::bytes::lemma_first_match(p, 0, hi);
    match crate::bytes::first_match(p, 0, hi) {
        Some(k) => {
            if k < i {
                assert(p(k));
                assert(d.subrange(k, k + 4)[0] == d[k]);
                assert(d.subrange(k, k + 4)[1] == d[k + 1]);
                assert(d.subrange(k, k + 4)[2] == d[k + 2]);
                assert(d.subrange(k, k + 4)[3] == d[k + 3]);
                assert(iend_at(d, k));
            } else if k > i {
                assert(!p(i));
            }
        },
        None => {
            assert(!p(i));
        },
    }
}

// ---------------------------------------------------------------- text

/// A byte of plain text: printable ASCII (space to `~`), newline, carriage
/// return or tab.
pub open spec fn plain_text_byte(b: u8) -> bool {
    (0x20 <= b && b <= 0x7E) || b == 0x0A || b == 0x0D || b == 0x09
}

/// How many of the first `n` bytes of `d` are plain text.
pub open spec fn plain_text_count(d: Seq<u8>, n: int) -> int
    decreases n,
{
    if n <= 0 {
        0
    } else {
        plain_text_count(d, n - 1) + if plain_text_byte(d[n - 1]) {
            1int
        } else {
            0
        }
    }
}

proof fn lemma_plain_text_count(d: Seq<u8>, n: int)
    requires
        0 <= n <= d.len(),
    ensures
        plain_text_count(d, n) == crate::classifier::count_text_bytes(d.subrange(0, n)),
    decreases n,
{
    if n > 0 {
        lemma_plain_text_count(d, n - 1);
        assert(d.subrange(0, n).drop_last() =~= d.subrange(0, n - 1));
    }
}

/// Data that matches no signature and no DEX or SQLite pattern, is longer
/// than 20 bytes, has more than 80% plain-text bytes among its first 256,
/// and has an entropy of at least 0.5 and below 5.0 bits per byte is
/// classified as text (with 40% confidence).
pub proof fn law_plain_text_is_text(d: Seq<u8>, e: u64)
    requires
        crate::signatures::spec_detect_index(d) is None,
        !crate::bytes::bytes_at(d, 0, crate::classifier::dex_pattern()),
        !crate::bytes::bytes_at(d, 0, crate::classifier::sqlite_pattern()),
        crate::entropy::ENTROPY_0_5 <= e < crate::entropy::ENTROPY_5_0,
        d.len() > 20,
        5 * plain_text_count(d, if d.len() < 256 { d.len() as int } else { 256 }) > 4 * (if d.len() < 256 {
            d.len() as int
        } else {
            256
        }),
    ensures
        crate::classifier::spec_guess_type(d, e) == (FileType::Text, 40int),
{
    let m: int = if d.len() < 256 {
        d.len() as int
    } else {
        256
    };
    lemma_plain_text_count(d, m);
    if d.len() <= 256 {
        assert(d.subrange(0, m) =~= d);
    }
    assert(crate::classifier::prefix(d, 256) == d.subrange(0, m));
    assert(crate::classifier::mostly_text(d));
}

// ---------------------------------------------------------------- sorting

/// A sort of `files` gives `result`, listed in `order` (what `sort_files`
/// promises): then by size, recoverability or entropy, each file's field is
/// at most the next one's when ascending and at least when descending; by
/// type, the extensions, and by name, the lower-cased names, never go down
/// (or up, descending) in character order.
pub proof fn law_sorted_by_chosen_field(
    files: Seq<FoundFileView>,
    order: Seq<usize>,
    result: Seq<FoundFileView>,
    o: crate::ui::SortOption,
    ascending: bool,
)
    requires
        crate::ui::is_sort_order(order, files, o, ascending),
        result == Seq::new(order.len(), |k: int| files[order[k] as int]),
    ensures
        forall|i: int, j: int| 0 <= i < j < result.len() ==> {
            let (a, b) = (#[trigger] result[i], #[trigger] result[j]);
            &&& o == crate::ui::SortOption::Size && ascending ==> a.estimated_size <= b.estimated_size
            &&& o == crate::ui::SortOption::Size && !ascending ==> a.estimated_size >= b.estimated_size
            &&& o == crate::ui::SortOption::Recoverability && ascending ==> a.recoverability <= b.recoverability
            &&& o == crate::ui::SortOption::Recoverability && !ascending ==> a.recoverability >= b.recoverability
            &&& o == crate::ui::SortOption::Entropy && ascending ==> a.entropy <= b.entropy
            &&& o == crate::ui::SortOption::Entropy && !ascending ==> a.entropy >= b.entropy
            &&& o == crate::ui::SortOption::Type && ascending ==> !crate::ui::lex_lt(
                crate::signatures::spec_extension(b.file_type),
                crate::signatures::spec_extension(a.file_type),
            )
            &&& o == crate::ui::SortOption::Type && !ascending ==> !crate::ui::lex_lt(
                crate::signatures::spec_extension(a.file_type),
                crate::signatures::spec_extension(b.file_type),
            )
            &&& o == crate::ui::SortOption::Name && ascending ==> !crate::ui::lex_lt(
                crate::text::lowercase_of(b.file_name),
                crate::text::lowercase_of(a.file_name),
            )
            &&& o == crate::ui::SortOption::Name && !ascending ==> !crate::ui::lex_lt(
                crate::text::lowercase_of(a.file_name),
                crate::text::lowercase_of(b.file_name),
            )
        },
{
    assert forall|i: int, j: int| 0 <= i < j < result.len() implies {
        let (a, b) = (#[trigger] result[i], #[trigger] result[j]);
        &&& o == crate::ui::SortOption::Size && ascending ==> a.estimated_size <= b.estimated_size
        &&& o == crate::ui::SortOption::Size && !ascending ==> a.estimated_size >= b.estimated_size
        &&& o == crate::ui::SortOption::Recoverability && ascending ==> a.recoverability <= b.recoverability
        &&& o == crate::ui::SortOption::Recoverability && !ascending ==> a.recoverability >= b.recoverability
        &&& o == crate::ui::SortOption::Entropy && ascending ==> a.entropy <= b.entropy
        &&& o == crate::ui::SortOption::Entropy && !ascending ==> a.entropy >= b.entropy
        &&& o == crate::ui::SortOption::Type && ascending ==> !crate::ui::lex_lt(
            crate::signatures::spec_extension(b.file_type),
            crate::signatures::spec_extension(a.file_type),
        )
        &&& o == crate::ui::SortOption::Type && !ascending ==> !crate::ui::lex_lt(
            crate::signatures::spec_extension(a.file_type),
            crate::signatures::spec_extension(b.file_type),
        )
        &&& o == crate::ui::SortOption::Name && ascending ==> !crate::ui::lex_lt(
            crate::text::lowercase_of(b.file_name),
            crate::text::lowercase_of(a.file_name),
        )
        &&& o == crate::ui::SortOption::Name && !ascending ==> !crate::ui::lex_lt(
            crate::text::lowercase_of(a.file_name),
            crate::text::lowercase_of(b.file_name),
        )
    } by {
        assert(result[i] == files[order[i] as int]);
        assert(result[j] == files[order[j] as int]);
        assert(!crate::ui::precedes(o, ascending, files[order[j] as int], files[order[i] as int]));
    }
}

} // verus!

verus! {

/// The last position in `[lo, hi)` where `p` holds is `i` when `p` holds at
/// `i` and nowhere after it.
proof fn lemma_last_is(p: spec_fn(int) -> bool, lo: int, hi: int, i: int)
    requires
        lo <= i < hi,
        p(i),
        forall|j: int| i < j < hi ==> !#[trigger] p(j),
    ensures
        crate::bytes::last_match(p, lo, hi) == Some(i),
{
    crate::bytes::lemma_last_match(p, lo, hi);
    match crate::bytes::last_match(p, lo, hi) {
        Some(k) => {
            if k < i {
                assert(!p(i));
            } else if k > i {
                assert(!p(k));
            }
        },
        None => {
            assert(!p(i));
        },
    }
}

/// The first position in `[lo, hi)` where `p` holds is `i` when `p` holds at
/// `i` and nowhere before it.
proof fn lemma_first_is(p: spec_fn(int) -> bool, lo: int, hi: int, i: int)
    requires
        lo <= i < hi,
        p(i),
        forall|j: int| lo <= j < i ==> !#[trigger] p(j),
    ensures
        crate::bytes::first_match(p, lo, hi) == Some(i),
{
    crate::bytes::lemma_first_match(p, lo, hi);
    match crate::bytes::first_match(p, lo, hi) {
        Some(k) => {
            if k < i {
                assert(!p(k));
            } else if k > i {
                assert(!p(i));
            }
        },
        None => {
            assert(!p(i));
        },
    }
}

/// The two bytes `a b` at `i`, inside the data.
pub open spec fn pair_at(d: Seq<u8>, i: int, a: u8, b: u8) -> bool {
    0 <= i && i + 2 <= d.len() && d[i] == a && d[i + 1] == b
}

/// A JPEG's size estimate ends its data at its last end-of-image marker
/// `FF D9` (at position 2 or later): the marker is included, nothing after it.
pub proof fn law_jpeg_size_ends_at_last_eoi(d: Seq<u8>, i: int)
    requires
        i >= 2,
        pair_at(d, i, 0xFF, 0xD9),
        forall|j: int| i < j ==> !#[trigger] pair_at(d, j, 0xFF, 0xD9),
    ensures
        crate::signatures::spec_estimate_size(FileType::Jpeg, d) == Some((i + 2) as u64),
{
    let p = crate::signatures::jpeg_eoi_at(d);
    assert forall|j: int| i < j < d.len() - 1 implies !#[trigger] p(j) by {
        assert(!pair_at(d, j, 0xFF, 0xD9));
    }
    lemma_last_is(p, 2, d.len() - 1, i);
}

/// A GIF's size estimate ends its data at its last trailer `00 3B` (at
/// position 2 or later), trailer included.
pub proof fn law_gif_size_ends_at_last_trailer(d: Seq<u8>, i: int)
    requires
        i >= 2,
        pair_at(d, i, 0x00, 0x3B),
        forall|j: int| i < j ==> !#[trigger] pair_at(d, j, 0x00, 0x3B),
    ensures
        crate::signatures::spec_estimate_size(FileType::Gif, d) == Some((i + 2) as u64),
{
    let p = crate::signatures::gif_trailer_at(d);
    assert forall|j: int| i < j < d.len() - 1 implies !#[trigger] p(j) by {
        assert(!pair_at(d, j, 0x00, 0x3B));
    }
    lemma_last_is(p, 2, d.len() - 1, i);
}

/// The complete `IEND` chunk trailer (type and CRC `AE 42 60 82`) at `i`.
pub open spec fn iend_trailer_at(d: Seq<u8>, i: int) -> bool {
    &&& 0 <= i && i + 8 <= d.len()
    &&& d[i] == 0x49 && d[i + 1] == 0x45 && d[i + 2] == 0x4E && d[i + 3] == 0x44
    &&& d[i + 4] == 0xAE && d[i + 5] == 0x42 && d[i + 6] == 0x60 && d[i + 7] == 0x82
}

/// A PNG's size estimate ends its data after the CRC of its last `IEND`
/// chunk (at position 8 or later).
pub proof fn law_png_size_ends_after_last_iend(d: Seq<u8>, i: int)
    requires
        i >= 8,
        iend_trailer_at(d, i),
        forall|j: int| i < j ==> !#[trigger] iend_trailer_at(d, j),
    ensures
        crate::signatures::spec_estimate_size(FileType::Png, d) == Some((i + 8) as u64),
{
    let p = crate::signatures::png_iend_at(d);
    assert forall|j: int| i < j < d.len() - 7 implies !#[trigger] p(j) by {
        assert(!iend_trailer_at(d, j));
    }
    lemma_last_is(p, 8, d.len() - 7, i);
}

/// The marker `%%EOF` at `i`.
pub open spec fn pdf_eof_marker(d: Seq<u8>, i: int) -> bool {
    &&& 0 <= i && i + 5 <= d.len()
    &&& d[i] == 0x25 && d[i + 1] == 0x25 && d[i + 2] == 0x45 && d[i + 3] == 0x4F && d[i + 4] == 0x46
}

/// A PDF's size estimate ends its data after its last `%%EOF` marker, when
/// that marker starts within the last 2048 bytes.
pub proof fn law_pdf_size_ends_after_last_eof(d: Seq<u8>, i: int)
    requires
        i >= d.len() - 2048,
        pdf_eof_marker(d, i),
        forall|j: int| i < j ==> !#[trigger] pdf_eof_marker(d, j),
    ensures
        crate::signatures::spec_estimate_size(FileType::Pdf, d) == Some((i + 5) as u64),
{
    let p = crate::signatures::pdf_eof_at(d);
    let hi = crate::signatures::sat_sub(d.len() as int, 4);
    assert forall|j: int| i < j < hi implies !#[trigger] p(j) by {
        assert(!pdf_eof_marker(d, j));
    }
    lemma_last_is(p, crate::signatures::pdf_search_start(d.len() as int), hi, i);
}

/// Recovered JPEG data is cut right after its first end-of-image marker
/// `FF D9`; recovered GIF data right after its first trailer `00 3B`.
pub proof fn law_jpeg_gif_cut_after_first_end_marker(d: Seq<u8>, i: int, t: FileType)
    requires
        t == FileType::Jpeg || t == FileType::Gif,
        t == FileType::Jpeg ==> pair_at(d, i, 0xFF, 0xD9) && forall|j: int| 0 <= j < i ==> !#[trigger] pair_at(d, j, 0xFF, 0xD9),
        t == FileType::Gif ==> pair_at(d, i, 0x00, 0x3B) && forall|j: int| 0 <= j < i ==> !#[trigger] pair_at(d, j, 0x00, 0x3B),
    ensures
        crate::recovery::file_end_defined(d, t),
        crate::recovery::spec_file_end(d, t) == i + 2,
{
    let (a, b): (u8, u8) = if t == FileType::Jpeg {
        (0xFF, 0xD9)
    } else {
        (0x00, 0x3B)
    };
    let pat = seq![a, b];
    let p = crate::bytes::pattern_at(d, pat, 0);
    let hi = crate::signatures::sat_sub(d.len() as int, 1);
    assert(d.subrange(i, i + 2) =~= pat);
    assert forall|j: int| 0 <= j < i implies !#[trigger] p(j) by {
        if p(j) {
            assert(d.subrange(j, j + 2)[0] == d[j]);
            assert(d.subrange(j, j + 2)[1] == d[j + 1]);
            assert(pair_at(d, j, a, b));
        }
    }
    lemma_first_is(p, 0, hi, i);
    if t == FileType::Jpeg {
        assert(pat == seq![0xFFu8, 0xD9u8]);
    } else {
        assert(pat == seq![0x00u8, 0x3Bu8]);
    }
}

} // verus!

verus! {

/// Without a matching signature, data that starts with `dex\n035\0` is
/// guessed to be DEX, data that starts with `SQLite` a database (both with
/// 90% confidence), and other data of entropy below 0.5 bits per byte is
/// unknown with 10% confidence.
pub proof fn law_guess_after_signatures(d: Seq<u8>, e: u64)
    requires
        crate::signatures::spec_detect_index(d) is None,
    ensures
        d.len() >= 8 && d[0] == 0x64 && d[1] == 0x65 && d[2] == 0x78 && d[3] == 0x0A && d[4] == 0x30
            && d[5] == 0x33 && d[6] == 0x35 && d[7] == 0x00
            ==> crate::classifier::spec_guess_type(d, e) == (FileType::Dex, 90int),
        d.len() >= 6 && d[0] == 0x53 && d[1] == 0x51 && d[2] == 0x4C && d[3] == 0x69 && d[4] == 0x74
            && d[5] == 0x65
            ==> crate::classifier::spec_guess_type(d, e) == (FileType::Db, 90int),
        !crate::bytes::bytes_at(d, 0, crate::classifier::dex_pattern())
            && !crate::bytes::bytes_at(d, 0, crate::classifier::sqlite_pattern())
            && e < crate::entropy::ENTROPY_0_5
            ==> crate::classifier::spec_guess_type(d, e) == (FileType::Unknown, 10int),
{
    if d.len() >= 8 && d[0] == 0x64 && d[1] == 0x65 && d[2] == 0x78 && d[3] == 0x0A && d[4] == 0x30
        && d[5] == 0x33 && d[6] == 0x35 && d[7] == 0x00 {
        assert(d.subrange(0, 8) =~= crate::classifier::dex_pattern());
    }
    if d.len() >= 6 && d[0] == 0x53 && d[1] == 0x51 && d[2] == 0x4C && d[3] == 0x69 && d[4] == 0x74
        && d[5] == 0x65 {
        assert(d.subrange(0, 6) =~= crate::classifier::sqlite_pattern());
        if crate::bytes::bytes_at(d, 0, crate::classifier::dex_pattern()) {
            assert(d.subrange(0, 8)[0] == d[0]);
        }
    }
}

} // verus!
