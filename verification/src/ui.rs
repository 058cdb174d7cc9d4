//! Decisions behind the file list shown to the user: sizes and icons,
//! type filters, selection by category or by the current filters, the
//! files handed to recovery, and the bounded message console.

use vstd::prelude::*;
use crate::android::AndroidFileEntry;
use crate::drive_info::{format_size_with, spec_format_size_with};
use crate::names::{find_exec, find_seq, trim_chars, trim_ws};
use crate::scanner::{views, FoundFile, FoundFileView};
use crate::signatures::{spec_category, spec_extension, FileType};
use crate::text::{from_chars, lowercase_of, str_equal, to_chars, to_lowercase};
use crate::words::is_char_at;
use vstd::string::StrSliceExecFns;

verus! {

/// Sizes in the file list: GB, MB, KB with two decimals, or "N B".
pub open spec fn spec_list_size(bytes: u64) -> Seq<char> {
    spec_format_size_with(bytes, false, " B"@)
}

/// Size of a file as the list shows it (see [`spec_list_size`]).
pub fn format_size(bytes: u64) -> (s: String)
    ensures
        s@ == spec_list_size(bytes),
{
    format_size_with(bytes, false, " B")
}

/// Icon of a file type in the file list.
pub open spec fn spec_thumb(t: FileType) -> Seq<char> {
    match t {
        FileType::Jpeg | FileType::Png | FileType::Gif | FileType::Bmp | FileType::Tiff | FileType::Webp
        | FileType::Ico | FileType::Heic | FileType::Raw | FileType::Psd | FileType::Ai | FileType::Svg => "🖼️"@,
        FileType::Mp4 | FileType::Avi | FileType::MkV | FileType::Mov | FileType::Wmv | FileType::WebM
        | FileType::Flv => "🎬"@,
        FileType::Mp3 | FileType::Wav | FileType::Flac | FileType::Aac | FileType::Ogg | FileType::Wma => "🎵"@,
        FileType::Pdf => "📄"@,
        FileType::Doc | FileType::Docx => "📝"@,
        FileType::Xls | FileType::Xlsx => "📊"@,
        FileType::Ppt | FileType::Pptx => "📽️"@,
        FileType::Odt => "📃"@,
        FileType::Zip | FileType::Rar | FileType::SevenZip | FileType::Tar | FileType::Gzip => "📦"@,
        FileType::Exe | FileType::Dll | FileType::Msi => "⚙️"@,
        FileType::Apk => "📦"@,
        FileType::Dex => "⚡"@,
        FileType::Db => "🗄️"@,
        FileType::Xml => "📋"@,
        FileType::ThreeGp => "🎬"@,
        FileType::Text => "📄"@,
        FileType::AndroidFile => "📱"@,
        FileType::Unknown => "❓"@,
    }
}

/// Icon of a file type in the file list (see [`spec_thumb`]).
pub fn get_thumb(t: FileType) -> (r: &'static str)
    ensures
        r@ == spec_thumb(t),
{
    match t {
        FileType::Jpeg | FileType::Png | FileType::Gif | FileType::Bmp | FileType::Tiff | FileType::Webp
        | FileType::Ico | FileType::Heic | FileType::Raw | FileType::Psd | FileType::Ai | FileType::Svg => "🖼️",
        FileType::Mp4 | FileType::Avi | FileType::MkV | FileType::Mov | FileType::Wmv | FileType::WebM
        | FileType::Flv => "🎬",
        FileType::Mp3 | FileType::Wav | FileType::Flac | FileType::Aac | FileType::Ogg | FileType::Wma => "🎵",
        FileType::Pdf => "📄",
        FileType::Doc | FileType::Docx => "📝",
        FileType::Xls | FileType::Xlsx => "📊",
        FileType::Ppt | FileType::Pptx => "📽️",
        FileType::Odt => "📃",
        FileType::Zip | FileType::Rar | FileType::SevenZip | FileType::Tar | FileType::Gzip => "📦",
        FileType::Exe | FileType::Dll | FileType::Msi => "⚙️",
        FileType::Apk => "📦",
        FileType::Dex => "⚡",
        FileType::Db => "🗄️",
        FileType::Xml => "📋",
        FileType::ThreeGp => "🎬",
        FileType::Text => "📄",
        FileType::AndroidFile => "📱",
        FileType::Unknown => "❓",
    }
}

/// Icon of a file type in the Android file list.
pub open spec fn spec_thumb_android(t: FileType) -> Seq<char> {
    match t {
        FileType::Jpeg | FileType::Png | FileType::Gif | FileType::Bmp | FileType::Webp | FileType::Heic => "🖼️"@,
        FileType::Mp4 | FileType::ThreeGp => "🎬"@,
        FileType::Mp3 | FileType::Ogg => "🎵"@,
        FileType::Apk => "📦"@,
        FileType::Dex => "⚡"@,
        FileType::Db => "🗄️"@,
        FileType::Pdf | FileType::Docx | FileType::Text => "📄"@,
        FileType::Xml => "📋"@,
        FileType::Zip => "📦"@,
        _ => "📱"@,
    }
}

/// Icon of a file type in the Android file list (see [`spec_thumb_android`]).
pub fn get_thumb_android(t: FileType) -> (r: &'static str)
    ensures
        r@ == spec_thumb_android(t),
{
    match t {
        FileType::Jpeg | FileType::Png | FileType::Gif | FileType::Bmp | FileType::Webp | FileType::Heic => "🖼️",
        FileType::Mp4 | FileType::ThreeGp => "🎬",
        FileType::Mp3 | FileType::Ogg => "🎵",
        FileType::Apk => "📦",
        FileType::Dex => "⚡",
        FileType::Db => "🗄️",
        FileType::Pdf | FileType::Docx | FileType::Text => "📄",
        FileType::Xml => "📋",
        FileType::Zip => "📦",
        _ => "📱",
    }
}

/// Image types that can be previewed.
pub open spec fn spec_can_have_preview(t: FileType) -> bool {
    t == FileType::Jpeg || t == FileType::Png || t == FileType::Gif || t == FileType::Bmp || t == FileType::Webp
        || t == FileType::Ico || t == FileType::Heic || t == FileType::Raw
}

/// Whether files of type `t` can be previewed.
pub fn can_have_preview(t: FileType) -> (r: bool)
    ensures
        r == spec_can_have_preview(t),
{
    match t {
        FileType::Jpeg | FileType::Png | FileType::Gif | FileType::Bmp | FileType::Webp | FileType::Ico
        | FileType::Heic | FileType::Raw => true,
        _ => false,
    }
}

/// Most messages the console keeps.
pub const CONSOLE_CAPACITY: usize = 100;

/// The console after adding a message: the oldest message goes once there
/// are more than [`CONSOLE_CAPACITY`].
pub open spec fn spec_console_push<T>(msgs: Seq<T>, m: T) -> Seq<T> {
    if msgs.len() + 1 > CONSOLE_CAPACITY {
        msgs.push(m).drop_first()
    } else {
        msgs.push(m)
    }
}

/// Adds a message to the console (see [`spec_console_push`]).
pub fn console_push<T>(msgs: &mut Vec<T>, m: T)
    ensures
        final(msgs)@ == spec_console_push(old(msgs)@, m),
{
    msgs.push(m);
    if msgs.len() > CONSOLE_CAPACITY {
        msgs.remove(0);
    }
}

/// The pieces of `s` from `i` on, split at each `c` (`str::split`).
pub open spec fn split_from(s: Seq<char>, c: char, i: int) -> Seq<Seq<char>>
    decreases s.len() + 1 - i,
{
    if i < 0 || i > s.len() {
        Seq::empty()
    } else {
        match crate::bytes::first_match(is_char_at(s, c), i, s.len() as int) {
            Some(k) => {
                proof {
                    crate::bytes::lemma_first_match(is_char_at(s, c), i, s.len() as int);
                }
                seq![s.subrange(i, k)] + split_from(s, c, k + 1)
            },
            None => seq![s.subrange(i, s.len() as int)],
        }
    }
}

/// The comma-separated pieces of `s`.
pub open spec fn comma_pieces(s: Seq<char>) -> Seq<Seq<char>> {
    split_from(s, ',', 0)
}

/// The comma-separated pieces of `v` (see [`comma_pieces`]).
fn split_commas(v: &[char]) -> (r: Vec<Vec<char>>)
    ensures
        r@.map_values(|x: Vec<char>| x@) == comma_pieces(v@),
{
    let n = v.len();
    let mut r: Vec<Vec<char>> = Vec::new();
    let mut i: usize = 0;
    loop
        invariant
            i <= n,
            n == v@.len(),
            r@.map_values(|x: Vec<char>| x@) + split_from(v@, ',', i as int) == comma_pieces(v@),
        decreases n + 1 - i,
    {
        let ghost before = r@.map_values(|x: Vec<char>| x@);
        let mut k = i;
        while k < n && v[k] != ','
            invariant
                i <= k <= n,
                n == v@.len(),
                crate::bytes::first_match(is_char_at(v@, ','), i as int, n as int) == crate::bytes::first_match(is_char_at(v@, ','), k as int, n as int),
            decreases n - k,
        {
            k += 1;
        }
        proof {
            crate::bytes::lemma_first_match(is_char_at(v@, ','), i as int, n as int);
        }
        let piece = vstd::slice::slice_to_vec(vstd::slice::slice_subrange(v, i, k));
        r.push(piece);
        if k == n {
            assert(r@.map_values(|x: Vec<char>| x@) =~= before + split_from(v@, ',', i as int));
            return r;
        }
        assert(r@.map_values(|x: Vec<char>| x@) =~= before.push(v@.subrange(i as int, k as int)));
        assert(before + split_from(v@, ',', i as int) =~= before.push(v@.subrange(i as int, k as int)) + split_from(v@, ',', k + 1));
        i = k + 1;
    }
}

/// The file type that a type filter names (lower-case extension), if any.
pub open spec fn spec_filter_type(e: Seq<char>) -> Option<FileType> {
    if e == "jpg"@ || e == "jpeg"@ { Some(FileType::Jpeg) }
    else if e == "png"@ { Some(FileType::Png) }
    else if e == "gif"@ { Some(FileType::Gif) }
    else if e == "bmp"@ { Some(FileType::Bmp) }
    else if e == "webp"@ { Some(FileType::Webp) }
    else if e == "heic"@ { Some(FileType::Heic) }
    else if e == "raw"@ { Some(FileType::Raw) }
    else if e == "tiff"@ { Some(FileType::Tiff) }
    else if e == "ico"@ { Some(FileType::Ico) }
    else if e == "psd"@ { Some(FileType::Psd) }
    else if e == "ai"@ { Some(FileType::Ai) }
    else if e == "svg"@ { Some(FileType::Svg) }
    else if e == "mp3"@ { Some(FileType::Mp3) }
    else if e == "wav"@ { Some(FileType::Wav) }
    else if e == "flac"@ { Some(FileType::Flac) }
    else if e == "aac"@ { Some(FileType::Aac) }
    else if e == "ogg"@ { Some(FileType::Ogg) }
    else if e == "wma"@ { Some(FileType::Wma) }
    else if e == "mp4"@ { Some(FileType::Mp4) }
    else if e == "avi"@ { Some(FileType::Avi) }
    else if e == "mkv"@ { Some(FileType::MkV) }
    else if e == "mov"@ { Some(FileType::Mov) }
    else if e == "wmv"@ { Some(FileType::Wmv) }
    else if e == "webm"@ { Some(FileType::WebM) }
    else if e == "flv"@ { Some(FileType::Flv) }
    else if e == "pdf"@ { Some(FileType::Pdf) }
    else if e == "doc"@ { Some(FileType::Doc) }
    else if e == "docx"@ { Some(FileType::Docx) }
    else if e == "xls"@ { Some(FileType::Xls) }
    else if e == "xlsx"@ { Some(FileType::Xlsx) }
    else if e == "ppt"@ { Some(FileType::Ppt) }
    else if e == "pptx"@ { Some(FileType::Pptx) }
    else if e == "odt"@ { Some(FileType::Odt) }
    else if e == "zip"@ { Some(FileType::Zip) }
    else if e == "rar"@ { Some(FileType::Rar) }
    else if e == "7z"@ { Some(FileType::SevenZip) }
    else if e == "tar"@ { Some(FileType::Tar) }
    else if e == "gz"@ { Some(FileType::Gzip) }
    else if e == "exe"@ { Some(FileType::Exe) }
    else if e == "dll"@ { Some(FileType::Dll) }
    else if e == "msi"@ { Some(FileType::Msi) }
    else { None }
}

/// The file type that a normalized (trimmed, lower-case) piece of a type
/// filter names (see [`spec_filter_type`]).
pub fn filter_type(e: &str) -> (r: Option<FileType>)
    ensures
        r == spec_filter_type(e@),
{
    if str_equal(e, "jpg") || str_equal(e, "jpeg") { Some(FileType::Jpeg) }
    else if str_equal(e, "png") { Some(FileType::Png) }
    else if str_equal(e, "gif") { Some(FileType::Gif) }
    else if str_equal(e, "bmp") { Some(FileType::Bmp) }
    else if str_equal(e, "webp") { Some(FileType::Webp) }
    else if str_equal(e, "heic") { Some(FileType::Heic) }
    else if str_equal(e, "raw") { Some(FileType::Raw) }
    else if str_equal(e, "tiff") { Some(FileType::Tiff) }
    else if str_equal(e, "ico") { Some(FileType::Ico) }
    else if str_equal(e, "psd") { Some(FileType::Psd) }
    else if str_equal(e, "ai") { Some(FileType::Ai) }
    else if str_equal(e, "svg") { Some(FileType::Svg) }
    else if str_equal(e, "mp3") { Some(FileType::Mp3) }
    else if str_equal(e, "wav") { Some(FileType::Wav) }
    else if str_equal(e, "flac") { Some(FileType::Flac) }
    else if str_equal(e, "aac") { Some(FileType::Aac) }
    else if str_equal(e, "ogg") { Some(FileType::Ogg) }
    else if str_equal(e, "wma") { Some(FileType::Wma) }
    else if str_equal(e, "mp4") { Some(FileType::Mp4) }
    else if str_equal(e, "avi") { Some(FileType::Avi) }
    else if str_equal(e, "mkv") { Some(FileType::MkV) }
    else if str_equal(e, "mov") { Some(FileType::Mov) }
    else if str_equal(e, "wmv") { Some(FileType::Wmv) }
    else if str_equal(e, "webm") { Some(FileType::WebM) }
    else if str_equal(e, "flv") { Some(FileType::Flv) }
    else if str_equal(e, "pdf") { Some(FileType::Pdf) }
    else if str_equal(e, "doc") { Some(FileType::Doc) }
    else if str_equal(e, "docx") { Some(FileType::Docx) }
    else if str_equal(e, "xls") { Some(FileType::Xls) }
    else if str_equal(e, "xlsx") { Some(FileType::Xlsx) }
    else if str_equal(e, "ppt") { Some(FileType::Ppt) }
    else if str_equal(e, "pptx") { Some(FileType::Pptx) }
    else if str_equal(e, "odt") { Some(FileType::Odt) }
    else if str_equal(e, "zip") { Some(FileType::Zip) }
    else if str_equal(e, "rar") { Some(FileType::Rar) }
    else if str_equal(e, "7z") { Some(FileType::SevenZip) }
    else if str_equal(e, "tar") { Some(FileType::Tar) }
    else if str_equal(e, "gz") { Some(FileType::Gzip) }
    else if str_equal(e, "exe") { Some(FileType::Exe) }
    else if str_equal(e, "dll") { Some(FileType::Dll) }
    else if str_equal(e, "msi") { Some(FileType::Msi) }
    else { None }
}

/// A filter piece as compared: trimmed and lower-cased.
pub open spec fn normalized(p: Seq<char>) -> Seq<char> {
    lowercase_of(trim_ws(p))
}

/// The types that the pieces `ps` name, in order; unknown pieces are ignored.
pub open spec fn types_named(ps: Seq<Seq<char>>) -> Seq<FileType>
    decreases ps.len(),
{
    if ps.len() == 0 {
        Seq::empty()
    } else {
        match spec_filter_type(normalized(ps.last())) {
            Some(t) => types_named(ps.drop_last()).push(t),
            None => types_named(ps.drop_last()),
        }
    }
}

/// The types that a comma-separated type filter such as `jpg, PNG` names.
pub open spec fn spec_type_filters(filter: Seq<char>) -> Seq<FileType> {
    types_named(comma_pieces(filter))
}

fn normalize(p: &[char]) -> (r: String)
    ensures
        r@ == normalized(p@),
{
    let t = trim_chars(p);
    let s = from_chars(&t);
    to_lowercase(s.as_str())
}

/// The file types named by the type filter, when there is one.
pub fn get_current_type_filters(type_filter: &Option<String>) -> (r: Option<Vec<FileType>>)
    ensures
        match type_filter {
            Some(f) => r matches Some(v) && v@ == spec_type_filters(f@),
            None => r is None,
        },
{
    match type_filter {
        None => None,
        Some(f) => {
            let chars = to_chars(f.as_str());
            let pieces = split_commas(&chars);
            let ghost pv = pieces@.map_values(|x: Vec<char>| x@);
            let mut r: Vec<FileType> = Vec::new();
            let mut i: usize = 0;
            while i < pieces.len()
                invariant
                    i <= pieces@.len(),
                    pv == pieces@.map_values(|x: Vec<char>| x@),
                    r@ == types_named(pv.subrange(0, i as int)),
                decreases pieces@.len() - i,
            {
                assert(pv.subrange(0, i + 1).drop_last() =~= pv.subrange(0, i as int));
                assert(pv[i as int] == pieces@[i as int]@);
                let n = normalize(&pieces[i]);
                match filter_type(n.as_str()) {
                    Some(t) => r.push(t),
                    None => {},
                }
                i += 1;
            }
            assert(pv.subrange(0, pieces@.len() as int) =~= pv);
            Some(r)
        },
    }
}

/// `files` with each file's selection set by `sel`.
pub open spec fn with_selection(files: Seq<FoundFileView>, sel: spec_fn(FoundFileView) -> bool) -> Seq<FoundFileView> {
    Seq::new(files.len(), |i: int| FoundFileView { selected: sel(files[i]), ..files[i] })
}

/// Number of files of `files` that `sel` picks.
pub open spec fn count_picked(files: Seq<FoundFileView>, sel: spec_fn(FoundFileView) -> bool) -> nat
    decreases files.len(),
{
    if files.len() == 0 {
        0
    } else {
        count_picked(files.drop_last(), sel) + if sel(files.last()) {
            1nat
        } else {
            0
        }
    }
}

/// Files of category `c` with recoverability at least `min_quality` (tenths).
pub open spec fn in_category(c: Seq<char>, min_quality: u32) -> spec_fn(FoundFileView) -> bool {
    |f: FoundFileView| spec_category(f.file_type) == c && f.recoverability >= min_quality
}

fn set_selected(files: &mut Vec<FoundFile>, i: usize, value: bool)
    requires
        i < old(files)@.len(),
    ensures
        final(files)@.len() == old(files)@.len(),
        views(final(files)@) == views(old(files)@).update(i as int, FoundFileView { selected: value, ..views(old(files)@)[i as int] }),
{
    let mut f = files[i].duplicate();
    f.selected = value;
    let ghost before = views(files@);
    files.set(i, f);
    assert(views(files@) =~= before.update(i as int, FoundFileView { selected: value, ..before[i as int] }));
}

/// Selects exactly the files of category `category` whose recoverability is
/// at least `min_quality` (tenths of a percent); returns how many.
pub fn select_by_category(files: &mut Vec<FoundFile>, category: &str, min_quality: u32) -> (count: u64)
    ensures
        views(final(files)@) == with_selection(views(old(files)@), in_category(category@, min_quality)),
        count == count_picked(views(old(files)@), in_category(category@, min_quality)),
{
    let ghost orig = views(files@);
    let ghost sel = in_category(category@, min_quality);
    let n = files.len();
    let mut count: u64 = 0;
    let mut i: usize = 0;
    while i < n
        invariant
            i <= n,
            n == files@.len(),
            orig.len() == n,
            sel == in_category(category@, min_quality),
            count == count_picked(orig.subrange(0, i as int), sel),
            count <= i,
            forall|k: int| 0 <= k < i ==> #[trigger] views(files@)[k] == (FoundFileView { selected: sel(orig[k]), ..orig[k] }),
            forall|k: int| i <= k < n ==> #[trigger] views(files@)[k] == orig[k],
        decreases n - i,
    {
        assert(orig.subrange(0, i + 1).drop_last() =~= orig.subrange(0, i as int));
        assert(views(files@)[i as int] == orig[i as int]);
        let pick = str_equal(files[i].file_type.category(), category) && files[i].recoverability >= min_quality;
        assert(pick == sel(orig[i as int]));
        set_selected(files, i, pick);
        if pick {
            count = count + 1;
        }
        i += 1;
    }
    assert(orig.subrange(0, n as int) =~= orig);
    assert(views(files@) =~= with_selection(orig, sel));
    count
}

/// Deselects every file.
pub fn deselect_all(files: &mut Vec<FoundFile>)
    ensures
        views(final(files)@) == with_selection(views(old(files)@), |f: FoundFileView| false),
{
    let ghost orig = views(files@);
    let n = files.len();
    let mut i: usize = 0;
    while i < n
        invariant
            i <= n,
            n == files@.len(),
            orig.len() == n,
            forall|k: int| 0 <= k < i ==> #[trigger] views(files@)[k] == (FoundFileView { selected: false, ..orig[k] }),
            forall|k: int| i <= k < n ==> #[trigger] views(files@)[k] == orig[k],
        decreases n - i,
    {
        set_selected(files, i, false);
        i += 1;
    }
    assert(views(files@) =~= with_selection(orig, |f: FoundFileView| false));
}

/// Flips the selection of the file at `index`; other indices change nothing.
pub fn toggle_file_selection(files: &mut Vec<FoundFile>, index: usize)
    ensures
        index < old(files)@.len() ==> views(final(files)@) == views(old(files)@).update(
            index as int,
            FoundFileView { selected: !views(old(files)@)[index as int].selected, ..views(old(files)@)[index as int] },
        ),
        index >= old(files)@.len() ==> views(final(files)@) == views(old(files)@),
{
    if index < files.len() {
        let v = !files[index].selected;
        set_selected(files, index, v);
    }
}

/// Whether the filter text matches a file: no text, or the text within the
/// lower-cased name or extension.
pub open spec fn text_matches(filter: Seq<char>, f: FoundFileView) -> bool {
    filter.len() == 0 || find_seq(lowercase_of(f.file_name), filter) is Some
        || find_seq(lowercase_of(spec_extension(f.file_type)), filter) is Some
}

/// Whether some piece of the comma-separated pattern names the file's extension.
pub open spec fn type_matches(pattern: Option<Seq<char>>, f: FoundFileView) -> bool {
    match pattern {
        None => true,
        Some(p) => exists|i: int| 0 <= i < comma_pieces(p).len()
            && normalized(#[trigger] comma_pieces(p)[i]) == lowercase_of(spec_extension(f.file_type)),
    }
}

/// The files that pass the current filters.
pub open spec fn passes_filters(filter: Seq<char>, pattern: Option<Seq<char>>, min_quality: u32) -> spec_fn(FoundFileView) -> bool {
    |f: FoundFileView| text_matches(filter, f) && type_matches(pattern, f) && f.recoverability >= min_quality
}

fn type_match_exec(pieces: &Vec<Vec<char>>, ext: &str) -> (r: bool)
    ensures
        r == exists|i: int| 0 <= i < pieces@.len() && normalized(#[trigger] pieces@[i]@) == ext@,
{
    let mut i: usize = 0;
    while i < pieces.len()
        invariant
            i <= pieces@.len(),
            forall|k: int| 0 <= k < i ==> normalized(#[trigger] pieces@[k]@) != ext@,
        decreases pieces@.len() - i,
    {
        let n = normalize(&pieces[i]);
        if str_equal(n.as_str(), ext) {
            return true;
        }
        i += 1;
    }
    false
}

/// What the type-pattern test computes from the pieces of a pattern.
proof fn lemma_type_match(pieces: Seq<Vec<char>>, p: Seq<char>, ext: Seq<char>, f: FoundFileView, r: bool)
    requires
        pieces.map_values(|x: Vec<char>| x@) == comma_pieces(p),
        ext == lowercase_of(spec_extension(f.file_type)),
        r == exists|i: int| 0 <= i < pieces.len() && normalized(#[trigger] pieces[i]@) == ext,
    ensures
        r == type_matches(Some(p), f),
{
    let cp = comma_pieces(p);
    assert(pieces.len() == cp.len());
    assert(forall|k: int| 0 <= k < cp.len() ==> #[trigger] cp[k] == pieces[k]@);
    if r {
        let k = choose|k: int| 0 <= k < pieces.len() && normalized(#[trigger] pieces[k]@) == ext;
        assert(cp[k] == pieces[k]@);
    }
    if type_matches(Some(p), f) {
        let k = choose|k: int| 0 <= k < cp.len() && normalized(#[trigger] cp[k]) == ext;
        assert(cp[k] == pieces[k]@);
    }
}

/// Whether lower-cased filter text matches a file by its lower-cased name and
/// extension: no text, or the text within either (see [`text_matches`]).
pub fn filter_text_hit(filter_lower: &str, name_lower: &str, ext_lower: &str) -> (r: bool)
    ensures
        r == (filter_lower@.len() == 0 || find_seq(name_lower@, filter_lower@) is Some
            || find_seq(ext_lower@, filter_lower@) is Some),
{
    let filter = to_chars(filter_lower);
    if filter.len() == 0 {
        return true;
    }
    let name_chars = to_chars(name_lower);
    let ext_chars = to_chars(ext_lower);
    find_exec(&name_chars, &filter).is_some() || find_exec(&ext_chars, &filter).is_some()
}

/// Selects exactly the files that pass the current filters: the filter text
/// (compared in lower case), the type pattern and the minimum quality
/// (tenths of a percent); returns how many.
pub fn select_all(files: &mut Vec<FoundFile>, filter_text: &str, type_filter: &Option<String>, min_quality: u32) -> (count: u64)
    ensures
        views(final(files)@) == with_selection(views(old(files)@), passes_filters(
            lowercase_of(filter_text@),
            match type_filter { Some(p) => Some(p@), None => None },
            min_quality,
        )),
        count == count_picked(views(old(files)@), passes_filters(
            lowercase_of(filter_text@),
            match type_filter { Some(p) => Some(p@), None => None },
            min_quality,
        )),
{
    let ghost orig = views(files@);
    let ghost pat = match type_filter { Some(p) => Some(p@), None => None };
    let ghost sel = passes_filters(lowercase_of(filter_text@), pat, min_quality);
    let filter_lower = to_lowercase(filter_text);
    let pieces: Vec<Vec<char>> = match type_filter {
        Some(p) => {
            let pc = to_chars(p.as_str());
            split_commas(&pc)
        },
        None => Vec::new(),
    };
    let n = files.len();
    let mut count: u64 = 0;
    let mut i: usize = 0;
    while i < n
        invariant
            i <= n,
            n == files@.len(),
            orig.len() == n,
            filter_lower@ == lowercase_of(filter_text@),
            pat == (match type_filter { Some(p) => Some(p@), None => None }),
            type_filter matches Some(p) ==> pieces@.map_values(|x: Vec<char>| x@) == comma_pieces(p@),
            sel == passes_filters(lowercase_of(filter_text@), pat, min_quality),
            count == count_picked(orig.subrange(0, i as int), sel),
            count <= i,
            forall|k: int| 0 <= k < i ==> #[trigger] views(files@)[k] == (FoundFileView { selected: sel(orig[k]), ..orig[k] }),
            forall|k: int| i <= k < n ==> #[trigger] views(files@)[k] == orig[k],
        decreases n - i,
    {
        assert(orig.subrange(0, i + 1).drop_last() =~= orig.subrange(0, i as int));
        assert(views(files@)[i as int] == orig[i as int]);
        let ext_lower = to_lowercase(files[i].file_type.extension());
        let name_lower = to_lowercase(files[i].file_name.as_str());
        let text_ok = filter_text_hit(filter_lower.as_str(), name_lower.as_str(), ext_lower.as_str());
        let type_ok = match type_filter {
            Some(_) => {
                let r = type_match_exec(&pieces, ext_lower.as_str());
                proof {
                    lemma_type_match(pieces@, type_filter->0@, ext_lower@, orig[i as int], r);
                }
                r
            },
            None => true,
        };
        let pick = text_ok && type_ok && files[i].recoverability >= min_quality;
        assert(files@[i as int]@ == orig[i as int]);
        assert(text_ok == text_matches(lowercase_of(filter_text@), orig[i as int]));
        assert(type_ok == type_matches(pat, orig[i as int]));
        assert(pick == sel(orig[i as int]));
        set_selected(files, i, pick);
        if pick {
            count = count + 1;
        }
        i += 1;
    }
    assert(orig.subrange(0, n as int) =~= orig);
    assert(views(files@) =~= with_selection(orig, sel));
    count
}

/// Files to recover: selected and recoverable at least `min_quality` (tenths);
/// each given as offset, type and estimated size.
pub open spec fn spec_to_recover(files: Seq<FoundFileView>, min_quality: u32) -> Seq<(u64, FileType, u64)>
    decreases files.len(),
{
    if files.len() == 0 {
        Seq::empty()
    } else {
        let f = files.last();
        if f.selected && f.recoverability >= min_quality {
            spec_to_recover(files.drop_last(), min_quality).push((f.offset, f.file_type, f.estimated_size))
        } else {
            spec_to_recover(files.drop_last(), min_quality)
        }
    }
}

/// Files to recover (see [`spec_to_recover`]).
pub fn files_to_recover(files: &Vec<FoundFile>, min_quality: u32) -> (r: Vec<(u64, FileType, u64)>)
    ensures
        r@ == spec_to_recover(views(files@), min_quality),
{
    let ghost fv = views(files@);
    let mut r: Vec<(u64, FileType, u64)> = Vec::new();
    let mut i: usize = 0;
    while i < files.len()
        invariant
            i <= files@.len(),
            fv == views(files@),
            r@ == spec_to_recover(fv.subrange(0, i as int), min_quality),
        decreases files@.len() - i,
    {
        assert(fv.subrange(0, i + 1).drop_last() =~= fv.subrange(0, i as int));
        assert(fv[i as int] == files@[i as int]@);
        let f = &files[i];
        if f.selected && f.recoverability >= min_quality {
            r.push((f.offset, f.file_type, f.estimated_size));
        }
        i += 1;
    }
    assert(fv.subrange(0, files@.len() as int) =~= fv);
    r
}


/// Lexicographic order of character sequences (by code point, as `String`
/// compares): a proper prefix comes first.
pub open spec fn lex_lt(a: Seq<char>, b: Seq<char>) -> bool
    decreases a.len(),
{
    if a.len() == 0 {
        b.len() > 0
    } else if b.len() == 0 {
        false
    } else if a[0] != b[0] {
        a[0] < b[0]
    } else {
        lex_lt(a.drop_first(), b.drop_first())
    }
}

/// Lexicographic order is a strict total order: irreflexive, and for two
/// sequences exactly one of before, equal, after holds.
pub proof fn lemma_lex_total(a: Seq<char>, b: Seq<char>)
    ensures
        !lex_lt(a, a),
        a == b || lex_lt(a, b) || lex_lt(b, a),
        !(lex_lt(a, b) && lex_lt(b, a)),
    decreases a.len(),
{
    if a.len() > 0 {
        lemma_lex_total(a.drop_first(), a.drop_first());
        if b.len() > 0 {
            lemma_lex_total(a.drop_first(), b.drop_first());
            if a[0] == b[0] && a.drop_first() == b.drop_first() {
                assert(a =~= seq![a[0]] + a.drop_first());
                assert(b =~= seq![b[0]] + b.drop_first());
            }
        }
    } else if b.len() == 0 {
        assert(a =~= b);
    }
}

/// Lexicographic order is transitive.
pub proof fn lemma_lex_transitive(a: Seq<char>, b: Seq<char>, c: Seq<char>)
    requires
        lex_lt(a, b),
        lex_lt(b, c),
    ensures
        lex_lt(a, c),
    decreases a.len(),
{
    if a.len() > 0 && b.len() > 0 && c.len() > 0 {
        if a[0] == b[0] && b[0] == c[0] {
            lemma_lex_transitive(a.drop_first(), b.drop_first(), c.drop_first());
        } else if a[0] != c[0] {
            if a[0] == b[0] {
            } else if b[0] == c[0] {
            } else {
            }
        } else {
            assert(a[0] < b[0] || b[0] < c[0]);
        }
    }
}

/// How the file list can be ordered.
#[derive(Clone, Copy, Debug, PartialEq, Eq, Structural)]
pub enum SortOption {
    Name,
    Type,
    Size,
    Recoverability,
    Entropy,
}

/// Text by which files are ordered: the lower-cased name, or the extension.
pub open spec fn text_key(o: SortOption, f: FoundFileView) -> Seq<char> {
    if o == SortOption::Name {
        lowercase_of(f.file_name)
    } else {
        spec_extension(f.file_type)
    }
}

/// Number by which files are ordered: size, recoverability or entropy.
pub open spec fn num_key(o: SortOption, f: FoundFileView) -> int {
    if o == SortOption::Size {
        f.estimated_size as int
    } else if o == SortOption::Recoverability {
        f.recoverability as int
    } else {
        f.entropy as int
    }
}

/// Orders by text.
pub open spec fn by_text(o: SortOption) -> bool {
    o == SortOption::Name || o == SortOption::Type
}

/// `a`'s key is below `b`'s.
pub open spec fn key_lt(o: SortOption, a: FoundFileView, b: FoundFileView) -> bool {
    if by_text(o) {
        lex_lt(text_key(o, a), text_key(o, b))
    } else {
        num_key(o, a) < num_key(o, b)
    }
}

/// `a` goes before `b` in the chosen direction.
pub open spec fn precedes(o: SortOption, ascending: bool, a: FoundFileView, b: FoundFileView) -> bool {
    if ascending {
        key_lt(o, a, b)
    } else {
        key_lt(o, b, a)
    }
}

/// `order` lists the positions of `files` in sorted order: each position
/// once, no file after one it should precede, and files with equal keys in
/// the order they had (the sort is stable).
pub open spec fn is_sort_order(order: Seq<usize>, files: Seq<FoundFileView>, o: SortOption, ascending: bool) -> bool {
    &&& order.len() == files.len()
    &&& forall|i: int| 0 <= i < order.len() ==> #[trigger] order[i] < files.len()
    &&& forall|i: int, j: int| 0 <= i < j < order.len() ==> order[i] != order[j]
    &&& forall|i: int, j: int| 0 <= i < j < order.len() ==> !precedes(o, ascending, #[trigger] files[order[j] as int], #[trigger] files[order[i] as int])
    &&& forall|i: int, j: int| 0 <= i < j < order.len() && !precedes(o, ascending, files[order[i] as int], files[order[j] as int])
        ==> order[i] < order[j]
}

/// `precedes` is a strict order whose incomparable pairs have equal keys.
pub proof fn lemma_precedes_order(o: SortOption, ascending: bool, a: FoundFileView, b: FoundFileView, c: FoundFileView)
    ensures
        !precedes(o, ascending, a, a),
        !(precedes(o, ascending, a, b) && precedes(o, ascending, b, a)),
        precedes(o, ascending, a, b) && precedes(o, ascending, b, c) ==> precedes(o, ascending, a, c),
        !precedes(o, ascending, a, b) && !precedes(o, ascending, b, a) ==> (precedes(o, ascending, a, c)
            == precedes(o, ascending, b, c) && precedes(o, ascending, c, a) == precedes(o, ascending, c, b)),
{
    if by_text(o) {
        let (ka, kb, kc) = (text_key(o, a), text_key(o, b), text_key(o, c));
        lemma_lex_total(ka, kb);
        lemma_lex_total(kb, kc);
        lemma_lex_total(ka, kc);
        lemma_lex_total(kb, ka);
        lemma_lex_total(kc, kb);
        lemma_lex_total(kc, ka);
        if lex_lt(ka, kb) && lex_lt(kb, kc) {
            lemma_lex_transitive(ka, kb, kc);
        }
        if lex_lt(kc, kb) && lex_lt(kb, ka) {
            lemma_lex_transitive(kc, kb, ka);
        }
    }
}

/// Whether `a` comes strictly before `b` in character order (see [`lex_lt`]).
pub fn lex_less(a: &[char], b: &[char]) -> (r: bool)
    ensures
        r == lex_lt(a@, b@),
{
    let mut i: usize = 0;
    assert(a@.subrange(0, a@.len() as int) =~= a@);
    assert(b@.subrange(0, b@.len() as int) =~= b@);
    while i < a.len() && i < b.len() && a[i] == b[i]
        invariant
            i <= a@.len(),
            i <= b@.len(),
            lex_lt(a@, b@) == lex_lt(a@.subrange(i as int, a@.len() as int), b@.subrange(i as int, b@.len() as int)),
        decreases a@.len() - i,
    {
        assert(a@.subrange(i as int, a@.len() as int).drop_first() =~= a@.subrange(i + 1, a@.len() as int));
        assert(b@.subrange(i as int, b@.len() as int).drop_first() =~= b@.subrange(i + 1, b@.len() as int));
        i += 1;
    }
    if i == a.len() {
        i < b.len()
    } else if i == b.len() {
        false
    } else {
        a[i] < b[i]
    }
}

/// The key of a file for ordering option `o`, as computed.
struct ExecKey {
    text: Vec<char>,
    num: u64,
}

fn key_of(o: SortOption, f: &FoundFile) -> (k: ExecKey)
    ensures
        by_text(o) ==> k.text@ == text_key(o, f@),
        !by_text(o) ==> k.num == num_key(o, f@),
{
    match o {
        SortOption::Name => {
            let l = to_lowercase(f.file_name.as_str());
            ExecKey { text: to_chars(l.as_str()), num: 0 }
        },
        SortOption::Type => ExecKey { text: to_chars(f.file_type.extension()), num: 0 },
        SortOption::Size => ExecKey { text: Vec::new(), num: f.estimated_size },
        SortOption::Recoverability => ExecKey { text: Vec::new(), num: f.recoverability as u64 },
        SortOption::Entropy => ExecKey { text: Vec::new(), num: f.entropy },
    }
}

fn key_less(o: SortOption, a: &ExecKey, b: &ExecKey) -> (r: bool)
    ensures
        by_text(o) ==> r == lex_lt(a.text@, b.text@),
        !by_text(o) ==> r == (a.num < b.num),
{
    if o == SortOption::Name || o == SortOption::Type {
        lex_less(a.text.as_slice(), b.text.as_slice())
    } else {
        a.num < b.num
    }
}

fn key_precedes(o: SortOption, ascending: bool, a: &ExecKey, b: &ExecKey) -> (r: bool)
    ensures
        by_text(o) && ascending ==> r == lex_lt(a.text@, b.text@),
        by_text(o) && !ascending ==> r == lex_lt(b.text@, a.text@),
        !by_text(o) && ascending ==> r == (a.num < b.num),
        !by_text(o) && !ascending ==> r == (b.num < a.num),
{
    if ascending {
        key_less(o, a, b)
    } else {
        key_less(o, b, a)
    }
}

/// The order in which the files are listed when sorted by `o`, ascending or
/// descending (see [`is_sort_order`]).
pub fn sort_order(files: &Vec<FoundFile>, o: SortOption, ascending: bool) -> (order: Vec<usize>)
    ensures
        is_sort_order(order@, views(files@), o, ascending),
{
    let ghost fv = views(files@);
    let n = files.len();
    let mut keys: Vec<ExecKey> = Vec::new();
    let mut k: usize = 0;
    while k < n
        invariant
            k <= n,
            n == files@.len(),
            fv == views(files@),
            keys@.len() == k,
            forall|j: int| 0 <= j < k ==> by_text(o) ==> #[trigger] keys@[j].text@ == text_key(o, fv[j]),
            forall|j: int| 0 <= j < k ==> !by_text(o) ==> #[trigger] keys@[j].num == num_key(o, fv[j]),
        decreases n - k,
    {
        assert(fv[k as int] == files@[k as int]@);
        keys.push(key_of(o, &files[k]));
        k += 1;
    }
    let mut order: Vec<usize> = Vec::new();
    let mut k: usize = 0;
    while k < n
        invariant
            k <= n,
            n == fv.len(),
            keys@.len() == n,
            forall|j: int| 0 <= j < n ==> by_text(o) ==> #[trigger] keys@[j].text@ == text_key(o, fv[j]),
            forall|j: int| 0 <= j < n ==> !by_text(o) ==> #[trigger] keys@[j].num == num_key(o, fv[j]),
            order@.len() == k,
            forall|i: int| 0 <= i < order@.len() ==> #[trigger] order@[i] < k,
            forall|i: int, j: int| 0 <= i < j < order@.len() ==> order@[i] != order@[j],
            forall|i: int, j: int| 0 <= i < j < order@.len() ==> !precedes(o, ascending, #[trigger] fv[order@[j] as int], #[trigger] fv[order@[i] as int]),
            forall|i: int, j: int| 0 <= i < j < order@.len() && !precedes(o, ascending, fv[order@[i] as int], fv[order@[j] as int])
                ==> order@[i] < order@[j],
        decreases n - k,
    {
        let mut p: usize = 0;
        while p < order.len() && !key_precedes(o, ascending, &keys[k], &keys[order[p]])
            invariant
                p <= order@.len(),
                k < n,
                n == fv.len(),
                keys@.len() == n,
                forall|j: int| 0 <= j < n ==> by_text(o) ==> #[trigger] keys@[j].text@ == text_key(o, fv[j]),
                forall|j: int| 0 <= j < n ==> !by_text(o) ==> #[trigger] keys@[j].num == num_key(o, fv[j]),
                forall|i: int| 0 <= i < order@.len() ==> #[trigger] order@[i] < k,
                forall|i: int| 0 <= i < p ==> !precedes(o, ascending, fv[k as int], #[trigger] fv[order@[i] as int]),
            decreases order@.len() - p,
        {
            p += 1;
        }
        proof {
            if p < order@.len() {
                assert(precedes(o, ascending, fv[k as int], fv[order@[p as int] as int]));
            }
        }
        let ghost old_order = order@;
        order.insert(p, k);
        proof {
            assert(order@ =~= old_order.subrange(0, p as int).push(k) + old_order.subrange(p as int, old_order.len() as int));
            let x = fv[k as int];
            assert forall|i: int, j: int| 0 <= i < j < order@.len() implies !precedes(o, ascending, #[trigger] fv[order@[j] as int], #[trigger] fv[order@[i] as int]) by {
                if j == p {
                    assert(order@[i] == old_order[i]);
                } else if i == p {
                    let q = order@[j];
                    assert(q == old_order[j - 1]);
                    let first = fv[old_order[p as int] as int];
                    lemma_precedes_order(o, ascending, fv[q as int], x, first);
                    if j - 1 > p {
                        assert(!precedes(o, ascending, fv[old_order[j - 1] as int], fv[old_order[p as int] as int]));
                    }
                } else {
                    let oi = if i < p { i } else { i - 1 };
                    let oj = if j < p { j } else { j - 1 };
                    assert(order@[i] == old_order[oi]);
                    assert(order@[j] == old_order[oj]);
                }
            }
            assert forall|i: int, j: int| 0 <= i < j < order@.len() && !precedes(o, ascending, fv[order@[i] as int], fv[order@[j] as int])
                implies order@[i] < order@[j] by {
                if j == p {
                    assert(order@[i] == old_order[i]);
                } else if i == p {
                    let q = order@[j];
                    assert(q == old_order[j - 1]);
                    let first = fv[old_order[p as int] as int];
                    lemma_precedes_order(o, ascending, fv[q as int], x, first);
                    lemma_precedes_order(o, ascending, x, fv[q as int], first);
                    if j - 1 > p {
                        assert(!precedes(o, ascending, fv[old_order[j - 1] as int], fv[old_order[p as int] as int]));
                    }
                } else {
                    let oi = if i < p { i } else { i - 1 };
                    let oj = if j < p { j } else { j - 1 };
                    assert(order@[i] == old_order[oi]);
                    assert(order@[j] == old_order[oj]);
                }
            }
            assert forall|i: int, j: int| 0 <= i < j < order@.len() implies order@[i] != order@[j] by {
                if i != p && j != p {
                    let oi = if i < p { i } else { i - 1 };
                    let oj = if j < p { j } else { j - 1 };
                    assert(order@[i] == old_order[oi]);
                    assert(order@[j] == old_order[oj]);
                } else if i == p {
                    assert(order@[j] == old_order[j - 1]);
                } else {
                    assert(order@[i] == old_order[i]);
                }
            }
            assert forall|i: int| 0 <= i < order@.len() implies #[trigger] order@[i] < k + 1 by {
                if i < p {
                    assert(order@[i] == old_order[i]);
                } else if i > p {
                    assert(order@[i] == old_order[i - 1]);
                }
            }
        }
        k += 1;
    }
    order
}

/// Sorts the file list by `sort_by`, ascending or descending, keeping files
/// with equal keys in their order.
pub fn sort_files(files: &mut Vec<FoundFile>, sort_by: SortOption, ascending: bool)
    ensures
        exists|order: Seq<usize>| is_sort_order(order, views(old(files)@), sort_by, ascending)
            && views(final(files)@) == Seq::new(order.len(), |i: int| views(old(files)@)[order[i] as int]),
{
    let order = sort_order(files, sort_by, ascending);
    let ghost fv = views(files@);
    let mut sorted: Vec<FoundFile> = Vec::new();
    let mut i: usize = 0;
    while i < order.len()
        invariant
            i <= order@.len(),
            is_sort_order(order@, fv, sort_by, ascending),
            fv == views(files@),
            views(sorted@) == Seq::new(i as nat, |j: int| fv[order@[j] as int]),
        decreases order@.len() - i,
    {
        let idx = order[i];
        assert(idx < fv.len());
        assert(fv[idx as int] == files@[idx as int]@);
        let copy = files[idx].duplicate();
        let ghost before = views(sorted@);
        sorted.push(copy);
        assert(views(sorted@) =~= before.push(fv[order@[i as int] as int]));
        assert(views(sorted@) =~= Seq::new((i + 1) as nat, |j: int| fv[order@[j] as int]));
        i += 1;
    }
    *files = sorted;
}


/// Whether a file is shown in the list: it matches the filter text (in lower
/// case), the type pattern (an empty pattern matches all) and, when given,
/// the minimum quality (tenths of a percent).
pub open spec fn shown(filter: Seq<char>, pattern: Option<Seq<char>>, min_quality: Option<u32>, f: FoundFileView) -> bool {
    &&& text_matches(filter, f)
    &&& match pattern {
        Some(p) => p.len() == 0 || type_matches(Some(p), f),
        None => true,
    }
    &&& match min_quality {
        Some(m) => f.recoverability >= m,
        None => true,
    }
}

/// Positions of the shown files among the first `n`, in order.
pub open spec fn shown_upto(files: Seq<FoundFileView>, filter: Seq<char>, pattern: Option<Seq<char>>, min_quality: Option<u32>, n: int) -> Seq<usize>
    decreases n,
{
    if n <= 0 {
        Seq::empty()
    } else if shown(filter, pattern, min_quality, files[n - 1]) {
        shown_upto(files, filter, pattern, min_quality, n - 1).push((n - 1) as usize)
    } else {
        shown_upto(files, filter, pattern, min_quality, n - 1)
    }
}

/// Positions of the files the list shows under the current filters, in order.
pub fn visible_files(files: &Vec<FoundFile>, filter_text: &str, type_filter: &Option<String>, min_quality: Option<u32>) -> (r: Vec<usize>)
    ensures
        r@ == shown_upto(
            views(files@),
            lowercase_of(filter_text@),
            match type_filter { Some(p) => Some(p@), None => None },
            min_quality,
            files@.len() as int,
        ),
{
    let ghost fv = views(files@);
    let ghost pat = match type_filter { Some(p) => Some(p@), None => None };
    let filter_lower = to_lowercase(filter_text);
    let (pieces, pattern_empty): (Vec<Vec<char>>, bool) = match type_filter {
        Some(p) => {
            let pc = to_chars(p.as_str());
            (split_commas(&pc), pc.len() == 0)
        },
        None => (Vec::new(), true),
    };
    let n = files.len();
    let mut r: Vec<usize> = Vec::new();
    let mut i: usize = 0;
    while i < n
        invariant
            i <= n,
            n == files@.len(),
            fv == views(files@),
            filter_lower@ == lowercase_of(filter_text@),
            pat == (match type_filter { Some(p) => Some(p@), None => None }),
            type_filter matches Some(p) ==> pieces@.map_values(|x: Vec<char>| x@) == comma_pieces(p@) && pattern_empty == (p@.len() == 0),
            r@ == shown_upto(fv, lowercase_of(filter_text@), pat, min_quality, i as int),
        decreases n - i,
    {
        assert(fv[i as int] == files@[i as int]@);
        let ext_lower = to_lowercase(files[i].file_type.extension());
        let name_lower = to_lowercase(files[i].file_name.as_str());
        let text_ok = filter_text_hit(filter_lower.as_str(), name_lower.as_str(), ext_lower.as_str());
        let type_ok = match type_filter {
            Some(_) => {
                if pattern_empty {
                    true
                } else {
                    let r = type_match_exec(&pieces, ext_lower.as_str());
                    proof {
                        lemma_type_match(pieces@, type_filter->0@, ext_lower@, fv[i as int], r);
                    }
                    r
                }
            },
            None => true,
        };
        let quality_ok = match min_quality {
            Some(m) => files[i].recoverability >= m,
            None => true,
        };
        assert(text_ok == text_matches(lowercase_of(filter_text@), fv[i as int]));
        if text_ok && type_ok && quality_ok {
            r.push(i);
        }
        i += 1;
    }
    r
}

/// Which page of the list is shown: the number of pages, the page (the last
/// one when the current page is past it), and the range of positions shown.
pub struct PageWindow {
    pub total_pages: usize,
    pub current_page: usize,
    pub start: usize,
    pub end: usize,
}

/// The page window for `total` files, `per_page` per page, at page `current`.
pub open spec fn spec_page_window(total: int, per_page: int, current: int) -> (int, int, int, int) {
    let pages = (total + per_page - 1) / per_page;
    let page = if current >= pages && pages > 0 {
        pages - 1
    } else {
        current
    };
    let start = page * per_page;
    let end = if start + per_page < total {
        start + per_page
    } else {
        total
    };
    (pages, page, start, end)
}

/// The page window of the file list (see [`spec_page_window`]).
pub fn page_window(total: usize, per_page: usize, current: usize) -> (w: PageWindow)
    requires
        per_page > 0,
        total + per_page <= usize::MAX,
        total > 0 || current * per_page + per_page <= usize::MAX,
    ensures
        (w.total_pages as int, w.current_page as int, w.start as int, w.end as int) == spec_page_window(
            total as int,
            per_page as int,
            current as int,
        ),
{
    let pages = (total + per_page - 1) / per_page;
    let page = if current >= pages && pages > 0 {
        pages - 1
    } else {
        current
    };
    proof {
        if pages > 0 && page < pages {
            assert(page * per_page + per_page <= pages * per_page) by (nonlinear_arith)
                requires
                    page < pages,
            ;
            assert(pages * per_page <= total + per_page - 1) by (nonlinear_arith)
                requires
                    pages as int == (total + per_page - 1) as int / per_page as int,
                    per_page > 0,
                    total + per_page - 1 >= 0,
            ;
        }
        if total > 0 {
            assert(pages >= 1) by (nonlinear_arith)
                requires
                    pages as int == (total + per_page - 1) as int / per_page as int,
                    per_page > 0,
                    total >= 1,
            ;
        }
    }
    let start = page * per_page;
    let end = if start + per_page < total {
        start + per_page
    } else {
        total
    };
    PageWindow { total_pages: pages, current_page: page, start, end }
}


/// How a console message is shown.
#[derive(Clone, Copy, Debug, PartialEq, Eq, Structural)]
pub enum ConsoleLevel {
    Info,
    Warning,
    Error,
    Success,
}

/// Why a recovery cannot start, with the level of the message, in the order
/// the conditions are checked: nothing selected, no output folder, a
/// recovery already running (warnings), no drive selected, or a drive index
/// out of range (errors).
pub open spec fn spec_recovery_blocker(selected: usize, folder_empty: bool, running: bool, drive: Option<usize>, drives: usize) -> Option<(ConsoleLevel, Seq<char>)> {
    if selected == 0 {
        Some((ConsoleLevel::Warning, "No hay archivos seleccionados para recuperar"@))
    } else if folder_empty {
        Some((ConsoleLevel::Warning, "Define una carpeta de recuperación primero"@))
    } else if running {
        Some((ConsoleLevel::Warning, "Ya hay una recuperación en progreso"@))
    } else if drive is None {
        Some((ConsoleLevel::Error, "No hay unidad seleccionada"@))
    } else if drive->0 >= drives {
        Some((ConsoleLevel::Error, "Unidad inválida"@))
    } else {
        None
    }
}

/// Why a recovery of `selected` files cannot start, if it cannot, with the
/// level of the message (see [`spec_recovery_blocker`]).
pub fn recovery_blocker(selected: usize, output_folder: &str, running: bool, drive: Option<usize>, drives: usize) -> (r: Option<(ConsoleLevel, String)>)
    ensures
        match spec_recovery_blocker(selected, output_folder@.len() == 0, running, drive, drives) {
            Some((level, m)) => r matches Some((l, s)) && l == level && s@ == m,
            None => r is None,
        },
{
    let folder_empty = output_folder.unicode_len() == 0;
    if selected == 0 {
        Some((ConsoleLevel::Warning, "No hay archivos seleccionados para recuperar".to_owned()))
    } else if folder_empty {
        Some((ConsoleLevel::Warning, "Define una carpeta de recuperación primero".to_owned()))
    } else if running {
        Some((ConsoleLevel::Warning, "Ya hay una recuperación en progreso".to_owned()))
    } else {
        match drive {
            None => Some((ConsoleLevel::Error, "No hay unidad seleccionada".to_owned())),
            Some(i) => if i >= drives {
                Some((ConsoleLevel::Error, "Unidad inválida".to_owned()))
            } else {
                None
            },
        }
    }
}

/// Why a scan cannot start, if it cannot, with the level of the message:
/// no drive selected or a scan already running (warnings), or a selected
/// drive that is not in the list of `drives` (an error), checked in that
/// order.
pub open spec fn spec_scan_blocker(drive: Option<usize>, scanning: bool, drives: usize) -> Option<(ConsoleLevel, Seq<char>)> {
    if drive is None {
        Some((ConsoleLevel::Warning, "Seleccione una unidad primero"@))
    } else if scanning {
        Some((ConsoleLevel::Warning, "Ya hay un escaneo en progreso"@))
    } else if drive->0 >= drives {
        Some((ConsoleLevel::Error, "Unidad inválida"@))
    } else {
        None
    }
}

/// Why a scan cannot start, if it cannot, with the level of the message
/// (see [`spec_scan_blocker`]).
pub fn scan_blocker(drive: Option<usize>, scanning: bool, drives: usize) -> (r: Option<(ConsoleLevel, String)>)
    ensures
        match spec_scan_blocker(drive, scanning, drives) {
            Some((level, m)) => r matches Some((l, s)) && l == level && s@ == m,
            None => r is None,
        },
{
    match drive {
        None => Some((ConsoleLevel::Warning, "Seleccione una unidad primero".to_owned())),
        Some(i) => if scanning {
            Some((ConsoleLevel::Warning, "Ya hay un escaneo en progreso".to_owned()))
        } else if i >= drives {
            Some((ConsoleLevel::Error, "Unidad inválida".to_owned()))
        } else {
            None
        },
    }
}

/// Names of recovered files reported at the end of a recovery.
pub const REPORTED_NAMES: usize = 5;

/// Outcome of recovering a list of files: successes, failures and the names
/// of the first recovered files.
pub struct RecoveryTally {
    pub success_count: u64,
    pub fail_count: u64,
    pub first_names: Vec<String>,
}

/// The names kept are those of the first recovered files: as many as were
/// recovered, up to [`REPORTED_NAMES`].
pub open spec fn tally_consistent(t: RecoveryTally) -> bool {
    t.first_names@.len() == if t.success_count < REPORTED_NAMES {
        t.success_count as int
    } else {
        REPORTED_NAMES as int
    }
}

/// Abstract value of a tally: successes, failures, names kept.
pub open spec fn tally_view(t: RecoveryTally) -> (int, int, Seq<Seq<char>>) {
    (t.success_count as int, t.fail_count as int, t.first_names@.map_values(|n: String| n@))
}

/// The tally after a file named `name` was recovered.
pub open spec fn tally_success(v: (int, int, Seq<Seq<char>>), name: Seq<char>) -> (int, int, Seq<Seq<char>>) {
    (v.0 + 1, v.1, if v.2.len() < REPORTED_NAMES { v.2.push(name) } else { v.2 })
}

/// The tally after a file could not be recovered.
pub open spec fn tally_failure(v: (int, int, Seq<Seq<char>>)) -> (int, int, Seq<Seq<char>>) {
    (v.0, v.1 + 1, v.2)
}

/// The tally after a sequence of outcomes, each the name of a recovered
/// file or `None` for a failure, starting from nothing.
pub open spec fn tally_after(events: Seq<Option<Seq<char>>>) -> (int, int, Seq<Seq<char>>)
    decreases events.len(),
{
    if events.len() == 0 {
        (0, 0, Seq::empty())
    } else {
        match events.last() {
            Some(n) => tally_success(tally_after(events.drop_last()), n),
            None => tally_failure(tally_after(events.drop_last())),
        }
    }
}

impl RecoveryTally {
    /// Nothing recovered yet.
    pub fn new() -> (t: RecoveryTally)
        ensures
            t.success_count == 0,
            t.fail_count == 0,
            t.first_names@.len() == 0,
            tally_view(t) == tally_after(Seq::empty()),
            tally_consistent(t),
    {
        RecoveryTally { success_count: 0, fail_count: 0, first_names: Vec::new() }
    }

    /// Counts a recovered file; its name is kept among the first five.
    pub fn record_success(&mut self, name: String)
        requires
            old(self).success_count < u64::MAX,
        ensures
            final(self).success_count == old(self).success_count + 1,
            final(self).fail_count == old(self).fail_count,
            old(self).first_names@.len() < REPORTED_NAMES ==> final(self).first_names@ == old(self).first_names@.push(name),
            old(self).first_names@.len() >= REPORTED_NAMES ==> final(self).first_names@ == old(self).first_names@,
            tally_view(*final(self)) == tally_success(tally_view(*old(self)), name@),
            tally_consistent(*old(self)) ==> tally_consistent(*final(self)),
    {
        let ghost before = tally_view(*self);
        let ghost n = name@;
        self.success_count = self.success_count + 1;
        if self.first_names.len() < REPORTED_NAMES {
            self.first_names.push(name);
        }
        assert(tally_view(*self).2 =~= tally_success(before, n).2);
    }

    /// Counts a file that could not be recovered.
    pub fn record_failure(&mut self)
        requires
            old(self).fail_count < u64::MAX,
        ensures
            final(self).fail_count == old(self).fail_count + 1,
            final(self).success_count == old(self).success_count,
            final(self).first_names@ == old(self).first_names@,
            tally_view(*final(self)) == tally_failure(tally_view(*old(self))),
            tally_consistent(*old(self)) ==> tally_consistent(*final(self)),
    {
        self.fail_count = self.fail_count + 1;
    }
}

} // verus!
