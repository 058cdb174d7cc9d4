//! Android devices over ADB: reading the device list, properties, root
//! checks, partitions and directory listings, and typing files by extension.
//! The ADB commands themselves are run by the caller, which hands over what
//! they printed.

use vstd::prelude::*;
use crate::names::{find_exec, find_seq, trim_chars, trim_ws, utf8_lossy, utf8_lossy_of};
use crate::signatures::{spec_extension, FileType};
use crate::text::{from_chars, lowercase_of, to_chars, to_lowercase};
use crate::words::{lines, lines_of, parse_u64, spec_parse_u64, words, words_of};

verus! {

/// An Android device seen by ADB.
pub struct AndroidDevice {
    pub serial: String,
    pub model: String,
    pub manufacturer: String,
    pub android_version: String,
    pub is_rooted: bool,
    pub storage_size: u64,
    pub storage_free: u64,
    pub is_recovery_mode: bool,
    pub is_fastboot_mode: bool,
}

impl AndroidDevice {
    /// A copy of this device.
    pub fn duplicate(&self) -> (r: AndroidDevice)
        ensures
            r.serial@ == self.serial@,
            r.model@ == self.model@,
            r.manufacturer@ == self.manufacturer@,
            r.android_version@ == self.android_version@,
            r.is_rooted == self.is_rooted,
            r.storage_size == self.storage_size,
            r.storage_free == self.storage_free,
            r.is_recovery_mode == self.is_recovery_mode,
            r.is_fastboot_mode == self.is_fastboot_mode,
    {
        AndroidDevice {
            serial: self.serial.clone(),
            model: self.model.clone(),
            manufacturer: self.manufacturer.clone(),
            android_version: self.android_version.clone(),
            is_rooted: self.is_rooted,
            storage_size: self.storage_size,
            storage_free: self.storage_free,
            is_recovery_mode: self.is_recovery_mode,
            is_fastboot_mode: self.is_fastboot_mode,
        }
    }
}

/// A partition of an Android device.
pub struct AndroidPartition {
    pub name: String,
    pub offset: u64,
    pub size: u64,
    /// File system, such as `ext4` or `f2fs`.
    pub fs_type: String,
    pub is_mounted: bool,
    pub mount_point: Option<String>,
}

/// A file found on an Android device.
pub struct AndroidFileEntry {
    pub path: String,
    pub file_name: String,
    pub file_type: FileType,
    pub size: u64,
    pub offset: u64,
    pub is_deleted: bool,
    pub is_media: bool,
    pub mime_type: String,
    pub modified: u64,
    /// Recoverability in tenths of a percent.
    pub recoverability: u32,
    pub selected: bool,
    pub source_partition: String,
}

/// Result of scanning an Android device.
pub struct AndroidScanResult {
    pub device: AndroidDevice,
    pub partitions: Vec<AndroidPartition>,
    pub found_files: Vec<AndroidFileEntry>,
    pub scan_time_ms: u64,
}

/// Whether two character sequences are equal.
fn chars_eq(a: &[char], b: &[char]) -> (r: bool)
    ensures
        r == (a@ == b@),
{
    if a.len() != b.len() {
        return false;
    }
    let mut i: usize = 0;
    while i < a.len()
        invariant
            i <= a@.len(),
            a@.len() == b@.len(),
            forall|k: int| 0 <= k < i ==> a@[k] == b@[k],
        decreases a@.len() - i,
    {
        if a[i] != b[i] {
            return false;
        }
        i += 1;
    }
    assert(a@ =~= b@);
    true
}

/// The word `daemon`.
pub open spec fn daemon_word() -> Seq<char> {
    seq!['d', 'a', 'e', 'm', 'o', 'n']
}

/// The state `device`.
pub open spec fn device_state() -> Seq<char> {
    seq!['d', 'e', 'v', 'i', 'c', 'e']
}

/// The serial on a line of `adb devices -l`: lines mentioning the daemon are
/// skipped; a device in state `device` gives its first word.
pub open spec fn line_serial(l: Seq<char>) -> Option<Seq<char>> {
    if find_seq(l, daemon_word()) is Some {
        None
    } else {
        let w = words_of(l);
        if w.len() >= 2 && w[1] == device_state() {
            Some(w[0])
        } else {
            None
        }
    }
}

/// The serials on lines `ls`, in order.
pub open spec fn serials_in(ls: Seq<Seq<char>>) -> Seq<Seq<char>>
    decreases ls.len(),
{
    if ls.len() == 0 {
        Seq::empty()
    } else {
        match line_serial(ls.last()) {
            Some(s) => serials_in(ls.drop_last()).push(s),
            None => serials_in(ls.drop_last()),
        }
    }
}

/// The lines after the first `n`.
pub open spec fn after_lines(ls: Seq<Seq<char>>, n: int) -> Seq<Seq<char>> {
    if ls.len() <= n {
        Seq::empty()
    } else {
        ls.subrange(n, ls.len() as int)
    }
}

/// Serials of the devices ready for use in the output of `adb devices -l`
/// (its first line is a header).
pub open spec fn spec_device_serials(out: Seq<u8>) -> Seq<Seq<char>> {
    serials_in(after_lines(lines_of(utf8_lossy_of(out)), 1))
}

fn line_serial_exec(l: &[char]) -> (r: Option<Vec<char>>)
    ensures
        match line_serial(l@) {
            Some(s) => r matches Some(v) && v@ == s,
            None => r is None,
        },
{
    let daemon: [char; 6] = ['d', 'a', 'e', 'm', 'o', 'n'];
    assert(daemon@ == daemon_word());
    if find_exec(l, &daemon).is_some() {
        return None;
    }
    let w = words(l);
    let ghost wv = w@.map_values(|x: Vec<char>| x@);
    let state: [char; 6] = ['d', 'e', 'v', 'i', 'c', 'e'];
    assert(state@ == device_state());
    if w.len() >= 2 {
        assert(wv[1] == w@[1]@);
        if chars_eq(&w[1], &state) {
            assert(wv[0] == w@[0]@);
            return Some(vstd::slice::slice_to_vec(w[0].as_slice()));
        }
    }
    None
}

/// Serials of the devices ready for use, from the bytes that `adb devices -l` printed.
pub fn device_serials(out: &[u8]) -> (r: Vec<String>)
    ensures
        r@.map_values(|s: String| s@) == spec_device_serials(out@),
{
    let text = utf8_lossy(out);
    serials_in_text(text.as_str())
}

/// Serials of the devices ready for use, from the text of `adb devices -l`
/// (its first line is a header).
pub fn serials_in_text(text: &str) -> (r: Vec<String>)
    ensures
        r@.map_values(|s: String| s@) == serials_in(after_lines(lines_of(text@), 1)),
{
    let chars = to_chars(text);
    let ls = lines(&chars);
    let ghost lv = ls@.map_values(|x: Vec<char>| x@);
    let ghost rest = after_lines(lv, 1);
    let mut r: Vec<String> = Vec::new();
    let mut i: usize = 1;
    if ls.len() == 0 {
        assert(rest =~= Seq::<Seq<char>>::empty());
        assert(r@.map_values(|s: String| s@) =~= serials_in(rest));
        return r;
    }
    while i < ls.len()
        invariant
            1 <= i <= ls@.len(),
            lv == ls@.map_values(|x: Vec<char>| x@),
            rest == after_lines(lv, 1),
            r@.map_values(|s: String| s@) == serials_in(lv.subrange(1, i as int)),
        decreases ls@.len() - i,
    {
        let ghost before = r@.map_values(|s: String| s@);
        assert(lv.subrange(1, i + 1).drop_last() =~= lv.subrange(1, i as int));
        assert(lv[i as int] == ls@[i as int]@);
        match line_serial_exec(&ls[i]) {
            Some(v) => {
                r.push(from_chars(&v));
                assert(r@.map_values(|s: String| s@) =~= before.push(v@));
            },
            None => {},
        }
        i += 1;
    }
    assert(lv.subrange(1, ls@.len() as int) =~= rest);
    r
}

/// A device property from what `getprop` printed: the text trimmed, when not empty.
pub open spec fn spec_property_value(out: Seq<u8>) -> Option<Seq<char>> {
    let v = trim_ws(utf8_lossy_of(out));
    if v.len() > 0 && v != seq!['\n'] {
        Some(v)
    } else {
        None
    }
}

/// A device property from the bytes that `adb shell getprop` printed.
pub fn property_value(out: &[u8]) -> (r: Option<String>)
    ensures
        match spec_property_value(out@) {
            Some(v) => r matches Some(s) && s@ == v,
            None => r is None,
        },
{
    let text = utf8_lossy(out);
    property_in_text(text.as_str())
}

/// A device property from the text `getprop` printed: the text trimmed, when
/// not empty.
pub fn property_in_text(text: &str) -> (r: Option<String>)
    ensures
        ({
            let v = trim_ws(text@);
            if v.len() > 0 && v != seq!['\n'] {
                r matches Some(s) && s@ == v
            } else {
                r is None
            }
        }),
{
    let chars = to_chars(text);
    let v = trim_chars(&chars);
    let nl: [char; 1] = ['\n'];
    assert(nl@ == seq!['\n']);
    if v.len() > 0 && !chars_eq(&v, &nl) {
        Some(from_chars(&v))
    } else {
        None
    }
}

/// The text `uid=0`.
pub open spec fn root_uid() -> Seq<char> {
    seq!['u', 'i', 'd', '=', '0']
}

/// Whether what `su -c id` printed shows root.
pub open spec fn spec_is_root_output(out: Seq<u8>) -> bool {
    find_seq(utf8_lossy_of(out), root_uid()) is Some
}

/// Whether the bytes that `adb shell su -c id` printed show root (`uid=0`).
pub fn is_root_output(out: &[u8]) -> (r: bool)
    ensures
        r == spec_is_root_output(out@),
{
    let text = utf8_lossy(out);
    shows_root(text.as_str())
}

/// Whether the text that `su -c id` printed shows root (`uid=0`).
pub fn shows_root(text: &str) -> (r: bool)
    ensures
        r == (find_seq(text@, root_uid()) is Some),
{
    let chars = to_chars(text);
    let uid: [char; 5] = ['u', 'i', 'd', '=', '0'];
    assert(uid@ == root_uid());
    find_exec(&chars, &uid).is_some()
}

/// What ADB printed for one device: its properties and the root check, each
/// `None` when the command could not be run.
pub struct DeviceQuery {
    pub serial: String,
    pub model: Option<Vec<u8>>,
    pub manufacturer: Option<Vec<u8>>,
    pub android_version: Option<Vec<u8>>,
    pub root_output: Option<Vec<u8>>,
}

/// The text used for properties that could not be read.
pub open spec fn unknown_text() -> Seq<char> {
    "Desconocido"@
}

/// A property from an optional command output, `Desconocido` when missing.
pub open spec fn spec_property_or_unknown(out: Option<Seq<u8>>) -> Seq<char> {
    match out {
        Some(o) => match spec_property_value(o) {
            Some(v) => v,
            None => unknown_text(),
        },
        None => unknown_text(),
    }
}

fn property_or_unknown(out: &Option<Vec<u8>>) -> (r: String)
    ensures
        r@ == spec_property_or_unknown(match out {
            Some(o) => Some(o@),
            None => None,
        }),
{
    match out {
        Some(o) => match property_value(o.as_slice()) {
            Some(v) => v,
            None => "Desconocido".to_owned(),
        },
        None => "Desconocido".to_owned(),
    }
}

/// The device described by what ADB printed for it.
pub open spec fn device_is(d: AndroidDevice, q: DeviceQuery) -> bool {
    &&& d.serial@ == q.serial@
    &&& d.model@ == spec_property_or_unknown(match q.model { Some(o) => Some(o@), None => None })
    &&& d.manufacturer@ == spec_property_or_unknown(match q.manufacturer { Some(o) => Some(o@), None => None })
    &&& d.android_version@ == spec_property_or_unknown(match q.android_version { Some(o) => Some(o@), None => None })
    &&& d.is_rooted == match q.root_output { Some(o) => spec_is_root_output(o@), None => false }
    &&& d.storage_size == 0
    &&& d.storage_free == 0
    &&& !d.is_recovery_mode
    &&& !d.is_fastboot_mode
}

/// The device described by what ADB printed for it.
pub fn device_from_query(q: &DeviceQuery) -> (d: AndroidDevice)
    ensures
        device_is(d, *q),
{
    let is_rooted = match &q.root_output {
        Some(o) => is_root_output(o.as_slice()),
        None => false,
    };
    AndroidDevice {
        serial: q.serial.clone(),
        model: property_or_unknown(&q.model),
        manufacturer: property_or_unknown(&q.manufacturer),
        android_version: property_or_unknown(&q.android_version),
        is_rooted,
        storage_size: 0,
        storage_free: 0,
        is_recovery_mode: false,
        is_fastboot_mode: false,
    }
}

/// Recovery from Android devices through ADB.
pub struct AndroidRecoveryEngine {
    adb_path: String,
    devices: Vec<AndroidDevice>,
    should_stop: bool,
}

impl AndroidRecoveryEngine {
    /// Path of the ADB program.
    pub closed spec fn spec_adb_path(&self) -> Seq<char> {
        self.adb_path@
    }

    /// The devices last detected.
    pub closed spec fn spec_devices(&self) -> Seq<AndroidDevice> {
        self.devices@
    }

    /// Whether a stop was requested.
    pub closed spec fn spec_should_stop(&self) -> bool {
        self.should_stop
    }

    /// An engine using the ADB program at `adb_path`, with no devices yet.
    pub fn new(adb_path: &str) -> (e: AndroidRecoveryEngine)
        ensures
            e.spec_adb_path() == adb_path@,
            e.spec_devices().len() == 0,
            !e.spec_should_stop(),
    {
        AndroidRecoveryEngine { adb_path: adb_path.to_owned(), devices: Vec::new(), should_stop: false }
    }

    /// Path of the ADB program.
    pub fn adb_path(&self) -> (r: &str)
        ensures
            r@ == self.spec_adb_path(),
    {
        self.adb_path.as_str()
    }

    /// The devices described by `queries` (one per serial listed ready by
    /// ADB, in order), remembered as the detected devices.
    pub fn detect_devices(&mut self, queries: &[DeviceQuery]) -> (r: Vec<AndroidDevice>)
        ensures
            r@.len() == queries@.len(),
            forall|i: int| 0 <= i < r@.len() ==> device_is(#[trigger] r@[i], queries@[i]),
            final(self).spec_devices().len() == queries@.len(),
            forall|i: int| 0 <= i < queries@.len() ==> device_is(#[trigger] final(self).spec_devices()[i], queries@[i]),
            final(self).spec_adb_path() == old(self).spec_adb_path(),
            final(self).spec_should_stop() == old(self).spec_should_stop(),
    {
        let mut kept: Vec<AndroidDevice> = Vec::new();
        let mut out: Vec<AndroidDevice> = Vec::new();
        let mut i: usize = 0;
        while i < queries.len()
            invariant
                i <= queries@.len(),
                kept@.len() == i,
                out@.len() == i,
                forall|k: int| 0 <= k < i ==> device_is(#[trigger] kept@[k], queries@[k]),
                forall|k: int| 0 <= k < i ==> device_is(#[trigger] out@[k], queries@[k]),
            decreases queries@.len() - i,
        {
            let d = device_from_query(&queries[i]);
            let copy = d.duplicate();
            kept.push(d);
            out.push(copy);
            i += 1;
        }
        self.devices = kept;
        out
    }

    /// Requests that a running scan or backup stop.
    pub fn stop(&mut self)
        ensures
            final(self).spec_should_stop(),
            final(self).spec_adb_path() == old(self).spec_adb_path(),
            final(self).spec_devices() == old(self).spec_devices(),
    {
        self.should_stop = true;
    }

    /// Whether a stop was requested.
    pub fn should_stop(&self) -> (r: bool)
        ensures
            r == self.spec_should_stop(),
    {
        self.should_stop
    }
}


/// `s` ends with `suffix`.
pub open spec fn ends_with(s: Seq<char>, suffix: Seq<char>) -> bool {
    s.len() >= suffix.len() && s.subrange(s.len() - suffix.len(), s.len() as int) == suffix
}

fn ends_with_exec(v: &[char], suffix: &str) -> (r: bool)
    ensures
        r == ends_with(v@, suffix@),
{
    let suf = to_chars(suffix);
    if suf.len() > v.len() {
        return false;
    }
    let start = v.len() - suf.len();
    let tail = vstd::slice::slice_subrange(v, start, v.len());
    chars_eq(tail, &suf)
}

/// File type and MIME type of an Android file by the extension of its
/// lower-cased name `l`.
pub open spec fn spec_android_type(l: Seq<char>) -> (FileType, Seq<char>) {
    if ends_with(l, ".jpg"@) || ends_with(l, ".jpeg"@) {
        (FileType::Jpeg, "image/jpeg"@)
    } else if ends_with(l, ".png"@) {
        (FileType::Png, "image/png"@)
    } else if ends_with(l, ".gif"@) {
        (FileType::Gif, "image/gif"@)
    } else if ends_with(l, ".mp4"@) {
        (FileType::Mp4, "video/mp4"@)
    } else if ends_with(l, ".mp3"@) {
        (FileType::Mp3, "audio/mpeg"@)
    } else if ends_with(l, ".apk"@) {
        (FileType::Apk, "application/vnd.android.package-archive"@)
    } else if ends_with(l, ".dex"@) {
        (FileType::Dex, "application/x-dex"@)
    } else if ends_with(l, ".db"@) || ends_with(l, ".sqlite"@) {
        (FileType::Db, "application/x-sqlite3"@)
    } else if ends_with(l, ".pdf"@) {
        (FileType::Pdf, "application/pdf"@)
    } else if ends_with(l, ".doc"@) || ends_with(l, ".docx"@) {
        (FileType::Docx, "application/msword"@)
    } else if ends_with(l, ".xml"@) {
        (FileType::Xml, "application/xml"@)
    } else if ends_with(l, ".ogg"@) {
        (FileType::Ogg, "audio/ogg"@)
    } else if ends_with(l, ".webp"@) {
        (FileType::Webp, "image/webp"@)
    } else if ends_with(l, ".heic"@) {
        (FileType::Heic, "image/heic"@)
    } else if ends_with(l, ".3gp"@) {
        (FileType::ThreeGp, "video/3gpp"@)
    } else if ends_with(l, ".avi"@) {
        (FileType::Avi, "video/x-msvideo"@)
    } else if ends_with(l, ".mkv"@) {
        (FileType::MkV, "video/x-matroska"@)
    } else if ends_with(l, ".zip"@) || ends_with(l, ".jar"@) {
        (FileType::Zip, "application/zip"@)
    } else if ends_with(l, ".txt"@) {
        (FileType::Text, "text/plain"@)
    } else {
        (FileType::AndroidFile, "application/octet-stream"@)
    }
}

/// File type and MIME type of an Android file by the extension of its
/// lower-cased name (see [`spec_android_type`]).
pub fn android_type_of_lower(lower: &str) -> (r: (FileType, String))
    ensures
        r.0 == spec_android_type(lower@).0,
        r.1@ == spec_android_type(lower@).1,
{
    let chars = to_chars(lower);
    let l = chars.as_slice();
    if ends_with_exec(l, ".jpg") || ends_with_exec(l, ".jpeg") {
        (FileType::Jpeg, "image/jpeg".to_owned())
    } else if ends_with_exec(l, ".png") {
        (FileType::Png, "image/png".to_owned())
    } else if ends_with_exec(l, ".gif") {
        (FileType::Gif, "image/gif".to_owned())
    } else if ends_with_exec(l, ".mp4") {
        (FileType::Mp4, "video/mp4".to_owned())
    } else if ends_with_exec(l, ".mp3") {
        (FileType::Mp3, "audio/mpeg".to_owned())
    } else if ends_with_exec(l, ".apk") {
        (FileType::Apk, "application/vnd.android.package-archive".to_owned())
    } else if ends_with_exec(l, ".dex") {
        (FileType::Dex, "application/x-dex".to_owned())
    } else if ends_with_exec(l, ".db") || ends_with_exec(l, ".sqlite") {
        (FileType::Db, "application/x-sqlite3".to_owned())
    } else if ends_with_exec(l, ".pdf") {
        (FileType::Pdf, "application/pdf".to_owned())
    } else if ends_with_exec(l, ".doc") || ends_with_exec(l, ".docx") {
        (FileType::Docx, "application/msword".to_owned())
    } else if ends_with_exec(l, ".xml") {
        (FileType::Xml, "application/xml".to_owned())
    } else if ends_with_exec(l, ".ogg") {
        (FileType::Ogg, "audio/ogg".to_owned())
    } else if ends_with_exec(l, ".webp") {
        (FileType::Webp, "image/webp".to_owned())
    } else if ends_with_exec(l, ".heic") {
        (FileType::Heic, "image/heic".to_owned())
    } else if ends_with_exec(l, ".3gp") {
        (FileType::ThreeGp, "video/3gpp".to_owned())
    } else if ends_with_exec(l, ".avi") {
        (FileType::Avi, "video/x-msvideo".to_owned())
    } else if ends_with_exec(l, ".mkv") {
        (FileType::MkV, "video/x-matroska".to_owned())
    } else if ends_with_exec(l, ".zip") || ends_with_exec(l, ".jar") {
        (FileType::Zip, "application/zip".to_owned())
    } else if ends_with_exec(l, ".txt") {
        (FileType::Text, "text/plain".to_owned())
    } else {
        (FileType::AndroidFile, "application/octet-stream".to_owned())
    }
}

impl AndroidRecoveryEngine {
    /// File type and MIME type of an Android file by its extension, in any case.
    pub fn detect_android_file_type(&self, name: &str) -> (r: (FileType, String))
        ensures
            r.0 == spec_android_type(lowercase_of(name@)).0,
            r.1@ == spec_android_type(lowercase_of(name@)).1,
    {
        let lower = to_lowercase(name);
        android_type_of_lower(lower.as_str())
    }
}

/// Abstract value of an [`AndroidFileEntry`].
pub struct AndroidFileEntryView {
    pub path: Seq<char>,
    pub file_name: Seq<char>,
    pub file_type: FileType,
    pub size: u64,
    pub offset: u64,
    pub is_deleted: bool,
    pub is_media: bool,
    pub mime_type: Seq<char>,
    pub modified: u64,
    pub recoverability: u32,
    pub selected: bool,
    pub source_partition: Seq<char>,
}

impl View for AndroidFileEntry {
    type V = AndroidFileEntryView;

    open spec fn view(&self) -> AndroidFileEntryView {
        AndroidFileEntryView {
            path: self.path@,
            file_name: self.file_name@,
            file_type: self.file_type,
            size: self.size,
            offset: self.offset,
            is_deleted: self.is_deleted,
            is_media: self.is_media,
            mime_type: self.mime_type@,
            modified: self.modified,
            recoverability: self.recoverability,
            selected: self.selected,
            source_partition: self.source_partition@,
        }
    }
}

/// Pictures, videos and music that the gallery shows.
pub open spec fn is_media_type(t: FileType) -> bool {
    t == FileType::Jpeg || t == FileType::Png || t == FileType::Gif || t == FileType::Mp4 || t == FileType::Mp3
}

/// The file listed on a line of `ls -la` in directory `base`: at least eight
/// words, not a directory or link, a non-zero size (fifth word), and a name
/// (last word) other than `.` and `..`. Recoverability 95%.
pub open spec fn spec_listed_entry(line: Seq<char>, base: Seq<char>) -> Option<AndroidFileEntryView> {
    let w = words_of(line);
    if w.len() < 8 || w[0][0] == 'd' || w[0][0] == 'l' {
        None
    } else {
        match spec_parse_u64(w[4]) {
            None => None,
            Some(size) => {
                let name = w.last();
                if size == 0 || name == seq!['.'] || name == seq!['.', '.'] {
                    None
                } else {
                    let t = spec_android_type(lowercase_of(name));
                    Some(AndroidFileEntryView {
                        path: base + seq!['/'] + name,
                        file_name: name,
                        file_type: t.0,
                        size,
                        offset: 0,
                        is_deleted: false,
                        is_media: is_media_type(t.0),
                        mime_type: t.1,
                        modified: 0,
                        recoverability: 950,
                        selected: true,
                        source_partition: "data"@,
                    })
                }
            },
        }
    }
}

impl AndroidRecoveryEngine {
    /// The file listed on a line of `ls -la` run in `base_path` (see [`spec_listed_entry`]).
    pub fn parse_file_entry(&self, line: &str, base_path: &str) -> (r: Option<AndroidFileEntry>)
        ensures
            match spec_listed_entry(line@, base_path@) {
                Some(v) => r matches Some(e) && e@ == v,
                None => r is None,
            },
    {
        let chars = to_chars(line);
        self.entry_of_line(&chars, base_path)
    }

    fn entry_of_line(&self, line: &[char], base_path: &str) -> (r: Option<AndroidFileEntry>)
        ensures
            match spec_listed_entry(line@, base_path@) {
                Some(v) => r matches Some(e) && e@ == v,
                None => r is None,
            },
    {
        let w = words(line);
        let ghost wv = w@.map_values(|x: Vec<char>| x@);
        if w.len() < 8 {
            return None;
        }
        proof {
            lemma_words_nonempty(line@);
            assert(wv[0] == w@[0]@);
            assert(wv[4] == w@[4]@);
            assert(wv.last() == w@[w@.len() - 1]@);
        }
        let first = &w[0];
        if first[0] == 'd' || first[0] == 'l' {
            return None;
        }
        let size = match parse_u64(w[4].as_slice()) {
            Some(s) => s,
            None => {
                return None;
            },
        };
        let name = &w[w.len() - 1];
        let dot: [char; 1] = ['.'];
        let dotdot: [char; 2] = ['.', '.'];
        assert(dot@ == seq!['.']);
        assert(dotdot@ == seq!['.', '.']);
        if size == 0 || chars_eq(name, &dot) || chars_eq(name, &dotdot) {
            return None;
        }
        let name_str = from_chars(name);
        let (file_type, mime) = self.detect_android_file_type(name_str.as_str());
        let mut path = base_path.to_owned();
        path.append("/");
        path.append(name_str.as_str());
        proof {
            reveal_strlit("/");
        }
        let is_media = file_type == FileType::Jpeg || file_type == FileType::Png || file_type == FileType::Gif
            || file_type == FileType::Mp4 || file_type == FileType::Mp3;
        assert(path@ == base_path@ + seq!['/'] + wv.last());
        assert(name_str@ == wv.last());
        assert(spec_parse_u64(wv[4]) == Some(size));
        assert(file_type == spec_android_type(lowercase_of(wv.last())).0);
        assert(mime@ == spec_android_type(lowercase_of(wv.last())).1);
        assert(is_media == is_media_type(file_type));
        Some(AndroidFileEntry {
            path,
            file_name: name_str,
            file_type,
            size,
            offset: 0,
            is_deleted: false,
            is_media,
            mime_type: mime,
            modified: 0,
            recoverability: 950,
            selected: true,
            source_partition: "data".to_owned(),
        })
    }
}

/// Every word is non-empty.
pub proof fn lemma_words_nonempty(s: Seq<char>)
    ensures
        forall|i: int| 0 <= i < words_of(s).len() ==> #[trigger] words_of(s)[i].len() > 0,
{
    lemma_words_from_nonempty(s, 0);
}

/// Every word from `i` on is non-empty.
pub proof fn lemma_words_from_nonempty(s: Seq<char>, i: int)
    ensures
        forall|k: int| 0 <= k < crate::words::words_from(s, i).len() ==> #[trigger] crate::words::words_from(s, i)[k].len() > 0,
    decreases s.len() - i,
{
    if 0 <= i < s.len() {
        match crate::bytes::first_match(crate::words::non_ws_at(s), i, s.len() as int) {
            None => {},
            Some(j) => {
                crate::bytes::lemma_first_match(crate::words::non_ws_at(s), i, s.len() as int);
                crate::bytes::lemma_first_match(crate::words::ws_at(s), j, s.len() as int);
                let e = match crate::bytes::first_match(crate::words::ws_at(s), j, s.len() as int) {
                    Some(k) => k,
                    None => s.len() as int,
                };
                assert(e > j) by {
                    if crate::bytes::first_match(crate::words::ws_at(s), j, s.len() as int) == Some(j) {
                        assert(crate::words::non_ws_at(s)(j));
                    }
                }
                lemma_words_from_nonempty(s, e);
                let ws = crate::words::words_from(s, i);
                assert(ws == seq![s.subrange(j, e)] + crate::words::words_from(s, e));
                assert forall|k: int| 0 <= k < ws.len() implies #[trigger] ws[k].len() > 0 by {
                    if k > 0 {
                        assert(ws[k] == crate::words::words_from(s, e)[k - 1]);
                    }
                }
            },
        }
    }
}


/// The files listed on lines `ls` of `ls -la` output in directory `base`.
pub open spec fn entries_in(ls: Seq<Seq<char>>, base: Seq<char>) -> Seq<AndroidFileEntryView>
    decreases ls.len(),
{
    if ls.len() == 0 {
        Seq::empty()
    } else {
        match spec_listed_entry(ls.last(), base) {
            Some(e) => entries_in(ls.drop_last(), base).push(e),
            None => entries_in(ls.drop_last(), base),
        }
    }
}

/// The files in the bytes that `ls -la` printed for directory `base` (its
/// first line, the total, is skipped).
pub open spec fn spec_listing_entries(out: Seq<u8>, base: Seq<char>) -> Seq<AndroidFileEntryView> {
    entries_in(after_lines(lines_of(utf8_lossy_of(out)), 1), base)
}

impl AndroidRecoveryEngine {
    /// The files in the bytes that `ls -la` printed for directory `base_path`.
    pub fn listing_entries(&self, out: &[u8], base_path: &str) -> (r: Vec<AndroidFileEntry>)
        ensures
            r@.map_values(|e: AndroidFileEntry| e@) == spec_listing_entries(out@, base_path@),
    {
        let text = utf8_lossy(out);
        self.listing_entries_in_text(text.as_str(), base_path)
    }

    /// The files in the text that `ls -la` printed for directory
    /// `base_path` (its first line, the total, is skipped).
    pub fn listing_entries_in_text(&self, text: &str, base_path: &str) -> (r: Vec<AndroidFileEntry>)
        ensures
            r@.map_values(|e: AndroidFileEntry| e@) == entries_in(after_lines(lines_of(text@), 1), base_path@),
    {
        let chars = to_chars(text);
        let ls = lines(&chars);
        let ghost lv = ls@.map_values(|x: Vec<char>| x@);
        let mut r: Vec<AndroidFileEntry> = Vec::new();
        if ls.len() == 0 {
            assert(after_lines(lv, 1) =~= Seq::<Seq<char>>::empty());
            assert(r@.map_values(|e: AndroidFileEntry| e@) =~= entries_in(after_lines(lv, 1), base_path@));
            return r;
        }
        let mut i: usize = 1;
        while i < ls.len()
            invariant
                1 <= i <= ls@.len(),
                lv == ls@.map_values(|x: Vec<char>| x@),
                r@.map_values(|e: AndroidFileEntry| e@) == entries_in(lv.subrange(1, i as int), base_path@),
            decreases ls@.len() - i,
        {
            let ghost before = r@.map_values(|e: AndroidFileEntry| e@);
            assert(lv.subrange(1, i + 1).drop_last() =~= lv.subrange(1, i as int));
            assert(lv[i as int] == ls@[i as int]@);
            match self.entry_of_line(&ls[i], base_path) {
                Some(e) => {
                    let ghost ev = e@;
                    r.push(e);
                    assert(r@.map_values(|e: AndroidFileEntry| e@) =~= before.push(ev));
                },
                None => {},
            }
            i += 1;
        }
        assert(lv.subrange(1, ls@.len() as int) =~= after_lines(lv, 1));
        r
    }
}

/// The last component of a `/`-separated path.
pub open spec fn last_component(p: Seq<char>) -> Seq<char> {
    match crate::text::last_index_of(p, '/') {
        Some(k) => p.subrange(k + 1, p.len() as int),
        None => p,
    }
}

/// The entry for a WhatsApp database read whole (`size` bytes) from `db_path`:
/// a SQLite database, 85% recoverable.
pub open spec fn spec_database_entry(db_path: Seq<char>, size: u64) -> AndroidFileEntryView {
    AndroidFileEntryView {
        path: db_path,
        file_name: last_component(db_path),
        file_type: FileType::Db,
        size,
        offset: 0,
        is_deleted: false,
        is_media: false,
        mime_type: "application/x-sqlite3"@,
        modified: 0,
        recoverability: 850,
        selected: true,
        source_partition: "data"@,
    }
}

/// The entry for a WhatsApp database read whole (see [`spec_database_entry`]).
pub fn database_entry(db_path: &str, size: u64) -> (r: AndroidFileEntry)
    ensures
        r@ == spec_database_entry(db_path@, size),
{
    let chars = to_chars(db_path);
    let name = match crate::text::rfind_char(db_path, '/') {
        Some(k) => {
            proof {
                crate::bytes::lemma_last_match(crate::text::char_at(db_path@, '/'), 0, db_path@.len() as int);
            }
            let n = chars.len();
            from_chars(vstd::slice::slice_subrange(chars.as_slice(), k + 1, n))
        },
        None => db_path.to_owned(),
    };
    AndroidFileEntry {
        path: db_path.to_owned(),
        file_name: name,
        file_type: FileType::Db,
        size,
        offset: 0,
        is_deleted: false,
        is_media: false,
        mime_type: "application/x-sqlite3".to_owned(),
        modified: 0,
        recoverability: 850,
        selected: true,
        source_partition: "data".to_owned(),
    }
}

/// Abstract value of an [`AndroidPartition`].
pub struct AndroidPartitionView {
    pub name: Seq<char>,
    pub offset: u64,
    pub size: u64,
    pub fs_type: Seq<char>,
    pub is_mounted: bool,
    pub mount_point: Option<Seq<char>>,
}

impl View for AndroidPartition {
    type V = AndroidPartitionView;

    open spec fn view(&self) -> AndroidPartitionView {
        AndroidPartitionView {
            name: self.name@,
            offset: self.offset,
            size: self.size,
            fs_type: self.fs_type@,
            is_mounted: self.is_mounted,
            mount_point: match self.mount_point {
                Some(m) => Some(m@),
                None => None,
            },
        }
    }
}

/// Block count and name on a line of `/proc/partitions`: four words or
/// more whose third, the block count, is a number; the fourth is the name.
pub open spec fn partition_line(l: Seq<char>) -> Option<(u64, Seq<char>)> {
    let w = words_of(l);
    if w.len() >= 4 && spec_parse_u64(w[2]) is Some {
        Some((spec_parse_u64(w[2])->0, w[3]))
    } else {
        None
    }
}

/// The partition on a line of `/proc/partitions` (size in 1 KiB blocks, `ext4` assumed).
pub open spec fn spec_partition(l: Seq<char>) -> Option<AndroidPartitionView> {
    match partition_line(l) {
        Some(p) => Some(AndroidPartitionView {
            name: p.1,
            offset: 0,
            size: (p.0 * 1024) as u64,
            fs_type: "ext4"@,
            is_mounted: false,
            mount_point: None,
        }),
        None => None,
    }
}

/// The `/dev/` prefix of device nodes.
pub open spec fn dev_dir() -> Seq<char> {
    seq!['/', 'd', 'e', 'v', '/']
}

/// The mounted partition on a line of `/proc/mounts`: three words or more,
/// the first naming a device node.
pub open spec fn spec_mount(l: Seq<char>) -> Option<AndroidPartitionView> {
    let w = words_of(l);
    if w.len() >= 3 && find_seq(w[0], dev_dir()) is Some {
        Some(AndroidPartitionView { name: w[0], offset: 0, size: 0, fs_type: w[2], is_mounted: true, mount_point: Some(w[1]) })
    } else {
        None
    }
}

/// Partitions found on lines `ls` by `f`.
pub open spec fn partitions_in(ls: Seq<Seq<char>>, mounts: bool) -> Seq<AndroidPartitionView>
    decreases ls.len(),
{
    if ls.len() == 0 {
        Seq::empty()
    } else {
        let p = if mounts {
            spec_mount(ls.last())
        } else {
            spec_partition(ls.last())
        };
        match p {
            Some(x) => partitions_in(ls.drop_last(), mounts).push(x),
            None => partitions_in(ls.drop_last(), mounts),
        }
    }
}

/// The lines of a `/proc/partitions` text that describe partitions (after two header lines).
pub open spec fn text_partition_lines(t: Seq<char>) -> Seq<Seq<char>> {
    after_lines(lines_of(t), 2)
}

/// The lines of `/proc/partitions` output that describe partitions.
pub open spec fn partition_lines(out: Seq<u8>) -> Seq<Seq<char>> {
    text_partition_lines(utf8_lossy_of(out))
}

/// Block counts of a `/proc/partitions` text small enough for their size in
/// bytes to fit in 64 bits.
pub open spec fn text_sizes_fit(t: Seq<char>) -> bool {
    forall|i: int| 0 <= i < text_partition_lines(t).len() ==> (#[trigger] partition_line(text_partition_lines(t)[i]) matches Some(p) ==> p.0 * 1024 <= u64::MAX)
}

/// Block counts of `/proc/partitions` output small enough for their size in
/// bytes to fit in 64 bits.
pub open spec fn partition_sizes_fit(out: Seq<u8>) -> bool {
    text_sizes_fit(utf8_lossy_of(out))
}

/// The partitions of a device: those listed by `cat /proc/partitions`, then
/// the mounted ones of `cat /proc/mounts` (each `None` when the command failed).
pub open spec fn spec_partitions(partitions: Option<Seq<u8>>, mounts: Option<Seq<u8>>) -> Seq<AndroidPartitionView> {
    let a = match partitions {
        Some(o) => partitions_in(partition_lines(o), false),
        None => Seq::empty(),
    };
    let b = match mounts {
        Some(o) => partitions_in(lines_of(utf8_lossy_of(o)), true),
        None => Seq::empty(),
    };
    a + b
}

fn partition_exec(l: &[char]) -> (r: Option<AndroidPartition>)
    requires
        partition_line(l@) matches Some(p) ==> p.0 * 1024 <= u64::MAX,
    ensures
        match spec_partition(l@) {
            Some(v) => r matches Some(p) && p@ == v,
            None => r is None,
        },
{
    let w = words(l);
    let ghost wv = w@.map_values(|x: Vec<char>| x@);
    if w.len() < 4 {
        return None;
    }
    assert(wv[2] == w@[2]@ && wv[3] == w@[3]@);
    let blocks = match parse_u64(w[2].as_slice()) {
        Some(b) => b,
        None => {
            return None;
        },
    };
    Some(AndroidPartition {
        name: from_chars(w[3].as_slice()),
        offset: 0,
        size: blocks * 1024,
        fs_type: "ext4".to_owned(),
        is_mounted: false,
        mount_point: None,
    })
}

fn mount_exec(l: &[char]) -> (r: Option<AndroidPartition>)
    ensures
        match spec_mount(l@) {
            Some(v) => r matches Some(p) && p@ == v,
            None => r is None,
        },
{
    let w = words(l);
    let ghost wv = w@.map_values(|x: Vec<char>| x@);
    if w.len() < 3 {
        return None;
    }
    assert(wv[0] == w@[0]@ && wv[1] == w@[1]@ && wv[2] == w@[2]@);
    let dev: [char; 5] = ['/', 'd', 'e', 'v', '/'];
    assert(dev@ == dev_dir());
    if find_exec(w[0].as_slice(), &dev).is_none() {
        return None;
    }
    Some(AndroidPartition {
        name: from_chars(w[0].as_slice()),
        offset: 0,
        size: 0,
        fs_type: from_chars(w[2].as_slice()),
        is_mounted: true,
        mount_point: Some(from_chars(w[1].as_slice())),
    })
}

fn push_partitions(r: &mut Vec<AndroidPartition>, text: &str, skip: usize, mounts: bool)
    requires
        skip == 0 || skip == 2,
        mounts == (skip == 0),
        !mounts ==> text_sizes_fit(text@),
    ensures
        final(r)@.map_values(|p: AndroidPartition| p@) == old(r)@.map_values(|p: AndroidPartition| p@)
            + partitions_in(after_lines(lines_of(text@), skip as int), mounts),
{
    let chars = to_chars(text);
    let ls = lines(&chars);
    let ghost lv = ls@.map_values(|x: Vec<char>| x@);
    let ghost start = r@.map_values(|p: AndroidPartition| p@);
    if ls.len() <= skip {
        assert(after_lines(lv, skip as int) =~= Seq::<Seq<char>>::empty());
        assert(start + partitions_in(after_lines(lv, skip as int), mounts) =~= start);
        return;
    }
    let mut i: usize = skip;
    assert(lv.subrange(skip as int, skip as int) =~= Seq::<Seq<char>>::empty());
    while i < ls.len()
        invariant
            skip <= i <= ls@.len(),
            skip == 0 || skip == 2,
            mounts == (skip == 0),
            !mounts ==> text_sizes_fit(text@),
            lv == ls@.map_values(|x: Vec<char>| x@),
            lv == lines_of(text@),
            r@.map_values(|p: AndroidPartition| p@) == start + partitions_in(lv.subrange(skip as int, i as int), mounts),
        decreases ls@.len() - i,
    {
        let ghost before = r@.map_values(|p: AndroidPartition| p@);
        assert(lv.subrange(skip as int, i + 1).drop_last() =~= lv.subrange(skip as int, i as int));
        assert(lv[i as int] == ls@[i as int]@);
        let found = if mounts {
            mount_exec(&ls[i])
        } else {
            proof {
                assert(text_partition_lines(text@)[i - 2] == lv[i as int]);
            }
            partition_exec(&ls[i])
        };
        match found {
            Some(p) => {
                let ghost pv = p@;
                r.push(p);
                assert(r@.map_values(|p: AndroidPartition| p@) =~= before.push(pv));
                assert(start + partitions_in(lv.subrange(skip as int, i + 1), mounts) =~= (start + partitions_in(lv.subrange(skip as int, i as int), mounts)).push(pv));
            },
            None => {},
        }
        i += 1;
    }
    assert(lv.subrange(skip as int, ls@.len() as int) =~= after_lines(lv, skip as int));
}

impl AndroidRecoveryEngine {
    /// The partitions of a device from the bytes that `cat /proc/partitions`
    /// and `cat /proc/mounts` printed (`None` for a command that failed).
    pub fn get_partitions(&self, partitions: Option<&[u8]>, mounts: Option<&[u8]>) -> (r: Vec<AndroidPartition>)
        requires
            partitions matches Some(o) ==> partition_sizes_fit(o@),
        ensures
            r@.map_values(|p: AndroidPartition| p@) == spec_partitions(
                match partitions { Some(o) => Some(o@), None => None },
                match mounts { Some(o) => Some(o@), None => None },
            ),
    {
        let mut r: Vec<AndroidPartition> = Vec::new();
        assert(r@.map_values(|p: AndroidPartition| p@) =~= Seq::<AndroidPartitionView>::empty());
        match partitions {
            Some(o) => {
                let text = utf8_lossy(o);
                push_partitions(&mut r, text.as_str(), 2, false);
            },
            None => {},
        }
        let ghost mid = r@.map_values(|p: AndroidPartition| p@);
        match mounts {
            Some(o) => {
                let text = utf8_lossy(o);
                push_partitions(&mut r, text.as_str(), 0, true);
                assert(after_lines(lines_of(utf8_lossy_of(o@)), 0) =~= lines_of(utf8_lossy_of(o@)));
            },
            None => {
                assert(mid + Seq::<AndroidPartitionView>::empty() =~= mid);
            },
        }
        r
    }
}


/// The partitions in the text of `cat /proc/partitions` (after its two
/// header lines) or, with `mounts`, the mounted ones in the text of
/// `cat /proc/mounts`.
pub fn partitions_in_text(text: &str, mounts: bool) -> (r: Vec<AndroidPartition>)
    requires
        !mounts ==> text_sizes_fit(text@),
    ensures
        r@.map_values(|p: AndroidPartition| p@) == partitions_in(after_lines(lines_of(text@), if mounts { 0 } else { 2 }), mounts),
{
    let mut r: Vec<AndroidPartition> = Vec::new();
    assert(r@.map_values(|p: AndroidPartition| p@) =~= Seq::<AndroidPartitionView>::empty());
    let skip: usize = if mounts {
        0
    } else {
        2
    };
    push_partitions(&mut r, text, skip, mounts);
    assert(Seq::<AndroidPartitionView>::empty() + partitions_in(after_lines(lines_of(text@), skip as int), mounts)
        =~= partitions_in(after_lines(lines_of(text@), skip as int), mounts));
    r
}

/// Whether every partition line of what `cat /proc/partitions` printed has
/// a block count whose size in bytes fits in 64 bits (see [`partition_sizes_fit`]).
pub fn partition_sizes_safe(out: &[u8]) -> (r: bool)
    ensures
        r == partition_sizes_fit(out@),
{
    let text = utf8_lossy(out);
    sizes_fit_in_text(text.as_str())
}

/// Whether every partition line of a `/proc/partitions` text has a block
/// count whose size in bytes fits in 64 bits (see [`text_sizes_fit`]).
pub fn sizes_fit_in_text(text: &str) -> (r: bool)
    ensures
        r == text_sizes_fit(text@),
{
    let chars = to_chars(text);
    let ls = lines(&chars);
    let ghost lv = ls@.map_values(|x: Vec<char>| x@);
    let ghost pl = text_partition_lines(text@);
    if ls.len() <= 2 {
        assert(pl =~= Seq::<Seq<char>>::empty());
        return true;
    }
    assert(pl == lv.subrange(2, lv.len() as int));
    let mut i: usize = 2;
    while i < ls.len()
        invariant
            2 <= i <= ls@.len(),
            lv == ls@.map_values(|x: Vec<char>| x@),
            pl == lv.subrange(2, lv.len() as int),
            pl == text_partition_lines(text@),
            forall|j: int| 0 <= j < i - 2 ==> (#[trigger] partition_line(pl[j]) matches Some(p) ==> p.0 * 1024 <= u64::MAX),
        decreases ls@.len() - i,
    {
        assert(pl[i - 2] == ls@[i as int]@);
        let w = words(&ls[i]);
        let ghost wv = w@.map_values(|x: Vec<char>| x@);
        if w.len() >= 4 {
            assert(wv[2] == w@[2]@ && wv[3] == w@[3]@);
            match parse_u64(w[2].as_slice()) {
                Some(blocks) => {
                    if blocks > u64::MAX / 1024 {
                        assert(partition_line(pl[i - 2]) == Some((blocks, wv[3])));
                        return false;
                    }
                },
                None => {},
            }
        }
        i += 1;
    }
    true
}


/// `s` with every leading copy of the non-empty `p` removed (`trim_start_matches`).
pub open spec fn strip_prefixes(s: Seq<char>, p: Seq<char>) -> Seq<char>
    decreases s.len(),
{
    if p.len() > 0 && s.len() >= p.len() && s.subrange(0, p.len() as int) == p {
        strip_prefixes(s.subrange(p.len() as int, s.len() as int), p)
    } else {
        s
    }
}

/// The media root of a device's internal storage.
pub open spec fn media_root() -> Seq<char> {
    "/data/media/0/"@
}

/// Directory (under the backup folder) that receives a device directory:
/// its path without the media root.
pub fn backup_subdir(path: &str) -> (r: String)
    ensures
        r@ == strip_prefixes(path@, media_root()),
{
    let v = to_chars(path);
    let root = to_chars("/data/media/0/");
    let n = v.len();
    let m = root.len();
    assert(m > 0) by {
        reveal_strlit("/data/media/0/");
    }
    let mut i: usize = 0;
    assert(v@.subrange(0, n as int) =~= v@);
    while m <= n - i && chars_eq(vstd::slice::slice_subrange(v.as_slice(), i, i + m), root.as_slice())
        invariant
            i <= n,
            n == v@.len(),
            m == root@.len(),
            m > 0,
            root@ == media_root(),
            strip_prefixes(path@, media_root()) == strip_prefixes(v@.subrange(i as int, n as int), media_root()),
            v@ == path@,
        decreases n - i,
    {
        let ghost rest = v@.subrange(i as int, n as int);
        assert(rest.subrange(0, m as int) =~= v@.subrange(i as int, i + m));
        assert(rest.subrange(m as int, rest.len() as int) =~= v@.subrange(i + m, n as int));
        i = i + m;
    }
    proof {
        let rest = v@.subrange(i as int, n as int);
        if m <= n - i {
            assert(rest.subrange(0, m as int) =~= v@.subrange(i as int, i + m));
        }
    }
    from_chars(vstd::slice::slice_subrange(v.as_slice(), i, n))
}

} // verus!

verus! {

/// The character `m` places from the end of `l` is the one `m` places from
/// the end of a suffix `s` of it.
proof fn lemma_suffix_char(l: Seq<char>, s: Seq<char>, m: int)
    requires
        ends_with(l, s),
        0 <= m < s.len(),
    ensures
        l[l.len() - 1 - m] == s[s.len() - 1 - m],
{
    assert(l.subrange(l.len() - s.len(), l.len() as int)[s.len() - 1 - m] == l[l.len() - 1 - m]);
}

/// A lower-cased name that ends in `.` and the extension of one of the
/// types that Android files are recognised as gets that type: the type's
/// extension is the name's. Where the MIME type names the extension, it
/// is the family (`image/`, `video/`, `audio/`, `application/`) followed by
/// the extension.
pub proof fn law_android_type_follows_extension(l: Seq<char>, t: FileType)
    requires
        t == FileType::Jpeg || t == FileType::Png || t == FileType::Gif || t == FileType::Mp4 || t == FileType::Mp3 || t == FileType::Apk || t == FileType::Dex || t == FileType::Db || t == FileType::Pdf || t == FileType::Docx || t == FileType::Xml || t == FileType::Ogg || t == FileType::Webp || t == FileType::Heic || t == FileType::ThreeGp || t == FileType::Avi || t == FileType::MkV || t == FileType::Zip || t == FileType::Text,
        ends_with(l, seq!['.'] + spec_extension(t)),
    ensures
        spec_android_type(l).0 == t,
        t == FileType::Png ==> spec_android_type(l).1 == "image/"@ + spec_extension(t),
        t == FileType::Gif ==> spec_android_type(l).1 == "image/"@ + spec_extension(t),
        t == FileType::Webp ==> spec_android_type(l).1 == "image/"@ + spec_extension(t),
        t == FileType::Heic ==> spec_android_type(l).1 == "image/"@ + spec_extension(t),
        t == FileType::Mp4 ==> spec_android_type(l).1 == "video/"@ + spec_extension(t),
        t == FileType::Ogg ==> spec_android_type(l).1 == "audio/"@ + spec_extension(t),
        t == FileType::Pdf ==> spec_android_type(l).1 == "application/"@ + spec_extension(t),
        t == FileType::Xml ==> spec_android_type(l).1 == "application/"@ + spec_extension(t),
        t == FileType::Zip ==> spec_android_type(l).1 == "application/"@ + spec_extension(t),
{
    match t {
        FileType::Jpeg => {
            reveal_strlit("jpg");
            reveal_strlit(".jpg");
            assert(seq!['.'] + "jpg"@ =~= ".jpg"@);
        },
        FileType::Png => {
            reveal_strlit("png");
            reveal_strlit(".png");
            assert(seq!['.'] + "png"@ =~= ".png"@);
            reveal_strlit("image/");
            reveal_strlit("image/png");
            assert("image/"@ + "png"@ =~= "image/png"@);
            reveal_strlit(".jpg");
            if ends_with(l, ".jpg"@) {
                lemma_suffix_char(l, ".jpg"@, 1);
                lemma_suffix_char(l, ".png"@, 1);
                assert(".jpg"@[2] == 'p');
                assert(".png"@[2] == 'n');
            }
            reveal_strlit(".jpeg");
            if ends_with(l, ".jpeg"@) {
                lemma_suffix_char(l, ".jpeg"@, 1);
                lemma_suffix_char(l, ".png"@, 1);
                assert(".jpeg"@[3] == 'e');
                assert(".png"@[2] == 'n');
            }
        },
        FileType::Gif => {
            reveal_strlit("gif");
            reveal_strlit(".gif");
            assert(seq!['.'] + "gif"@ =~= ".gif"@);
            reveal_strlit("image/");
            reveal_strlit("image/gif");
            assert("image/"@ + "gif"@ =~= "image/gif"@);
            reveal_strlit(".jpg");
            if ends_with(l, ".jpg"@) {
                lemma_suffix_char(l, ".jpg"@, 0);
                lemma_suffix_char(l, ".gif"@, 0);
                assert(".jpg"@[3] == 'g');
                assert(".gif"@[3] == 'f');
            }
            reveal_strlit(".jpeg");
            if ends_with(l, ".jpeg"@) {
                lemma_suffix_char(l, ".jpeg"@, 0);
                lemma_suffix_char(l, ".gif"@, 0);
                assert(".jpeg"@[4] == 'g');
                assert(".gif"@[3] == 'f');
            }
            reveal_strlit(".png");
            if ends_with(l, ".png"@) {
                lemma_suffix_char(l, ".png"@, 0);
                lemma_suffix_char(l, ".gif"@, 0);
                assert(".png"@[3] == 'g');
                assert(".gif"@[3] == 'f');
            }
        },
        FileType::Mp4 => {
            reveal_strlit("mp4");
            reveal_strlit(".mp4");
            assert(seq!['.'] + "mp4"@ =~= ".mp4"@);
            reveal_strlit("video/");
            reveal_strlit("video/mp4");
            assert("video/"@ + "mp4"@ =~= "video/mp4"@);
            reveal_strlit(".jpg");
            if ends_with(l, ".jpg"@) {
                lemma_suffix_char(l, ".jpg"@, 0);
                lemma_suffix_char(l, ".mp4"@, 0);
                assert(".jpg"@[3] == 'g');
                assert(".mp4"@[3] == '4');
            }
            reveal_strlit(".jpeg");
            if ends_with(l, ".jpeg"@) {
                lemma_suffix_char(l, ".jpeg"@, 0);
                lemma_suffix_char(l, ".mp4"@, 0);
                assert(".jpeg"@[4] == 'g');
                assert(".mp4"@[3] == '4');
            }
            reveal_strlit(".png");
            if ends_with(l, ".png"@) {
                lemma_suffix_char(l, ".png"@, 0);
                lemma_suffix_char(l, ".mp4"@, 0);
                assert(".png"@[3] == 'g');
                assert(".mp4"@[3] == '4');
            }
            reveal_strlit(".gif");
            if ends_with(l, ".gif"@) {
                lemma_suffix_char(l, ".gif"@, 0);
                lemma_suffix_char(l, ".mp4"@, 0);
                assert(".gif"@[3] == 'f');
                assert(".mp4"@[3] == '4');
            }
        },
        FileType::Mp3 => {
            reveal_strlit("mp3");
            reveal_strlit(".mp3");
            assert(seq!['.'] + "mp3"@ =~= ".mp3"@);
            reveal_strlit(".jpg");
            if ends_with(l, ".jpg"@) {
                lemma_suffix_char(l, ".jpg"@, 0);
                lemma_suffix_char(l, ".mp3"@, 0);
                assert(".jpg"@[3] == 'g');
                assert(".mp3"@[3] == '3');
            }
            reveal_strlit(".jpeg");
            if ends_with(l, ".jpeg"@) {
                lemma_suffix_char(l, ".jpeg"@, 0);
                lemma_suffix_char(l, ".mp3"@, 0);
                assert(".jpeg"@[4] == 'g');
                assert(".mp3"@[3] == '3');
            }
            reveal_strlit(".png");
            if ends_with(l, ".png"@) {
                lemma_suffix_char(l, ".png"@, 0);
                lemma_suffix_char(l, ".mp3"@, 0);
                assert(".png"@[3] == 'g');
                assert(".mp3"@[3] == '3');
            }
            reveal_strlit(".gif");
            if ends_with(l, ".gif"@) {
                lemma_suffix_char(l, ".gif"@, 0);
                lemma_suffix_char(l, ".mp3"@, 0);
                assert(".gif"@[3] == 'f');
                assert(".mp3"@[3] == '3');
            }
            reveal_strlit(".mp4");
            if ends_with(l, ".mp4"@) {
                lemma_suffix_char(l, ".mp4"@, 0);
                lemma_suffix_char(l, ".mp3"@, 0);
                assert(".mp4"@[3] == '4');
                assert(".mp3"@[3] == '3');
            }
        },
        FileType::Apk => {
            reveal_strlit("apk");
            reveal_strlit(".apk");
            assert(seq!['.'] + "apk"@ =~= ".apk"@);
            reveal_strlit(".jpg");
            if ends_with(l, ".jpg"@) {
                lemma_suffix_char(l, ".jpg"@, 0);
                lemma_suffix_char(l, ".apk"@, 0);
                assert(".jpg"@[3] == 'g');
                assert(".apk"@[3] == 'k');
            }
            reveal_strlit(".jpeg");
            if ends_with(l, ".jpeg"@) {
                lemma_suffix_char(l, ".jpeg"@, 0);
                lemma_suffix_char(l, ".apk"@, 0);
                assert(".jpeg"@[4] == 'g');
                assert(".apk"@[3] == 'k');
            }
            reveal_strlit(".png");
            if ends_with(l, ".png"@) {
                lemma_suffix_char(l, ".png"@, 0);
                lemma_suffix_char(l, ".apk"@, 0);
                assert(".png"@[3] == 'g');
                assert(".apk"@[3] == 'k');
            }
            reveal_strlit(".gif");
            if ends_with(l, ".gif"@) {
                lemma_suffix_char(l, ".gif"@, 0);
                lemma_suffix_char(l, ".apk"@, 0);
                assert(".gif"@[3] == 'f');
                assert(".apk"@[3] == 'k');
            }
            reveal_strlit(".mp4");
            if ends_with(l, ".mp4"@) {
                lemma_suffix_char(l, ".mp4"@, 0);
                lemma_suffix_char(l, ".apk"@, 0);
                assert(".mp4"@[3] == '4');
                assert(".apk"@[3] == 'k');
            }
            reveal_strlit(".mp3");
            if ends_with(l, ".mp3"@) {
                lemma_suffix_char(l, ".mp3"@, 0);
                lemma_suffix_char(l, ".apk"@, 0);
                assert(".mp3"@[3] == '3');
                assert(".apk"@[3] == 'k');
            }
        },
        FileType::Dex => {
            reveal_strlit("dex");
            reveal_strlit(".dex");
            assert(seq!['.'] + "dex"@ =~= ".dex"@);
            reveal_strlit(".jpg");
            if ends_with(l, ".jpg"@) {
                lemma_suffix_char(l, ".jpg"@, 0);
                lemma_suffix_char(l, ".dex"@, 0);
                assert(".jpg"@[3] == 'g');
                assert(".dex"@[3] == 'x');
            }
            reveal_strlit(".jpeg");
            if ends_with(l, ".jpeg"@) {
                lemma_suffix_char(l, ".jpeg"@, 0);
                lemma_suffix_char(l, ".dex"@, 0);
                assert(".jpeg"@[4] == 'g');
                assert(".dex"@[3] == 'x');
            }
            reveal_strlit(".png");
            if ends_with(l, ".png"@) {
                lemma_suffix_char(l, ".png"@, 0);
                lemma_suffix_char(l, ".dex"@, 0);
                assert(".png"@[3] == 'g');
                assert(".dex"@[3] == 'x');
            }
            reveal_strlit(".gif");
            if ends_with(l, ".gif"@) {
                lemma_suffix_char(l, ".gif"@, 0);
                lemma_suffix_char(l, ".dex"@, 0);
                assert(".gif"@[3] == 'f');
                assert(".dex"@[3] == 'x');
            }
            reveal_strlit(".mp4");
            if ends_with(l, ".mp4"@) {
                lemma_suffix_char(l, ".mp4"@, 0);
                lemma_suffix_char(l, ".dex"@, 0);
                assert(".mp4"@[3] == '4');
                assert(".dex"@[3] == 'x');
            }
            reveal_strlit(".mp3");
            if ends_with(l, ".mp3"@) {
                lemma_suffix_char(l, ".mp3"@, 0);
                lemma_suffix_char(l, ".dex"@, 0);
                assert(".mp3"@[3] == '3');
                assert(".dex"@[3] == 'x');
            }
            reveal_strlit(".apk");
            if ends_with(l, ".apk"@) {
                lemma_suffix_char(l, ".apk"@, 0);
                lemma_suffix_char(l, ".dex"@, 0);
                assert(".apk"@[3] == 'k');
                assert(".dex"@[3] == 'x');
            }
        },
        FileType::Db => {
            reveal_strlit("db");
            reveal_strlit(".db");
            assert(seq!['.'] + "db"@ =~= ".db"@);
            reveal_strlit(".jpg");
            if ends_with(l, ".jpg"@) {
                lemma_suffix_char(l, ".jpg"@, 0);
                lemma_suffix_char(l, ".db"@, 0);
                assert(".jpg"@[3] == 'g');
                assert(".db"@[2] == 'b');
            }
            reveal_strlit(".jpeg");
            if ends_with(l, ".jpeg"@) {
                lemma_suffix_char(l, ".jpeg"@, 0);
                lemma_suffix_char(l, ".db"@, 0);
                assert(".jpeg"@[4] == 'g');
                assert(".db"@[2] == 'b');
            }
            reveal_strlit(".png");
            if ends_with(l, ".png"@) {
                lemma_suffix_char(l, ".png"@, 0);
                lemma_suffix_char(l, ".db"@, 0);
                assert(".png"@[3] == 'g');
                assert(".db"@[2] == 'b');
            }
            reveal_strlit(".gif");
            if ends_with(l, ".gif"@) {
                lemma_suffix_char(l, ".gif"@, 0);
                lemma_suffix_char(l, ".db"@, 0);
                assert(".gif"@[3] == 'f');
                assert(".db"@[2] == 'b');
            }
            reveal_strlit(".mp4");
            if ends_with(l, ".mp4"@) {
                lemma_suffix_char(l, ".mp4"@, 0);
                lemma_suffix_char(l, ".db"@, 0);
                assert(".mp4"@[3] == '4');
                assert(".db"@[2] == 'b');
            }
            reveal_strlit(".mp3");
            if ends_with(l, ".mp3"@) {
                lemma_suffix_char(l, ".mp3"@, 0);
                lemma_suffix_char(l, ".db"@, 0);
                assert(".mp3"@[3] == '3');
                assert(".db"@[2] == 'b');
            }
            reveal_strlit(".apk");
            if ends_with(l, ".apk"@) {
                lemma_suffix_char(l, ".apk"@, 0);
                lemma_suffix_char(l, ".db"@, 0);
                assert(".apk"@[3] == 'k');
                assert(".db"@[2] == 'b');
            }
            reveal_strlit(".dex");
            if ends_with(l, ".dex"@) {
                lemma_suffix_char(l, ".dex"@, 0);
                lemma_suffix_char(l, ".db"@, 0);
                assert(".dex"@[3] == 'x');
                assert(".db"@[2] == 'b');
            }
        },
        FileType::Pdf => {
            reveal_strlit("pdf");
            reveal_strlit(".pdf");
            assert(seq!['.'] + "pdf"@ =~= ".pdf"@);
            reveal_strlit("application/");
            reveal_strlit("application/pdf");
            assert("application/"@ + "pdf"@ =~= "application/pdf"@);
            reveal_strlit(".jpg");
            if ends_with(l, ".jpg"@) {
                lemma_suffix_char(l, ".jpg"@, 0);
                lemma_suffix_char(l, ".pdf"@, 0);
                assert(".jpg"@[3] == 'g');
                assert(".pdf"@[3] == 'f');
            }
            reveal_strlit(".jpeg");
            if ends_with(l, ".jpeg"@) {
                lemma_suffix_char(l, ".jpeg"@, 0);
                lemma_suffix_char(l, ".pdf"@, 0);
                assert(".jpeg"@[4] == 'g');
                assert(".pdf"@[3] == 'f');
            }
            reveal_strlit(".png");
            if ends_with(l, ".png"@) {
                lemma_suffix_char(l, ".png"@, 0);
                lemma_suffix_char(l, ".pdf"@, 0);
                assert(".png"@[3] == 'g');
                assert(".pdf"@[3] == 'f');
            }
            reveal_strlit(".gif");
            if ends_with(l, ".gif"@) {
                lemma_suffix_char(l, ".gif"@, 1);
                lemma_suffix_char(l, ".pdf"@, 1);
                assert(".gif"@[2] == 'i');
                assert(".pdf"@[2] == 'd');
            }
            reveal_strlit(".mp4");
            if ends_with(l, ".mp4"@) {
                lemma_suffix_char(l, ".mp4"@, 0);
                lemma_suffix_char(l, ".pdf"@, 0);
                assert(".mp4"@[3] == '4');
                assert(".pdf"@[3] == 'f');
            }
            reveal_strlit(".mp3");
            if ends_with(l, ".mp3"@) {
                lemma_suffix_char(l, ".mp3"@, 0);
                lemma_suffix_char(l, ".pdf"@, 0);
                assert(".mp3"@[3] == '3');
                assert(".pdf"@[3] == 'f');
            }
            reveal_strlit(".apk");
            if ends_with(l, ".apk"@) {
                lemma_suffix_char(l, ".apk"@, 0);
                lemma_suffix_char(l, ".pdf"@, 0);
                assert(".apk"@[3] == 'k');
                assert(".pdf"@[3] == 'f');
            }
            reveal_strlit(".dex");
            if ends_with(l, ".dex"@) {
                lemma_suffix_char(l, ".dex"@, 0);
                lemma_suffix_char(l, ".pdf"@, 0);
                assert(".dex"@[3] == 'x');
                assert(".pdf"@[3] == 'f');
            }
            reveal_strlit(".db");
            if ends_with(l, ".db"@) {
                lemma_suffix_char(l, ".db"@, 0);
                lemma_suffix_char(l, ".pdf"@, 0);
                assert(".db"@[2] == 'b');
                assert(".pdf"@[3] == 'f');
            }
            reveal_strlit(".sqlite");
            if ends_with(l, ".sqlite"@) {
                lemma_suffix_char(l, ".sqlite"@, 0);
                lemma_suffix_char(l, ".pdf"@, 0);
                assert(".sqlite"@[6] == 'e');
                assert(".pdf"@[3] == 'f');
            }
        },
        FileType::Docx => {
            reveal_strlit("docx");
            reveal_strlit(".docx");
            assert(seq!['.'] + "docx"@ =~= ".docx"@);
            reveal_strlit(".jpg");
            if ends_with(l, ".jpg"@) {
                lemma_suffix_char(l, ".jpg"@, 0);
                lemma_suffix_char(l, ".docx"@, 0);
                assert(".jpg"@[3] == 'g');
                assert(".docx"@[4] == 'x');
            }
            reveal_strlit(".jpeg");
            if ends_with(l, ".jpeg"@) {
                lemma_suffix_char(l, ".jpeg"@, 0);
                lemma_suffix_char(l, ".docx"@, 0);
                assert(".jpeg"@[4] == 'g');
                assert(".docx"@[4] == 'x');
            }
            reveal_strlit(".png");
            if ends_with(l, ".png"@) {
                lemma_suffix_char(l, ".png"@, 0);
                lemma_suffix_char(l, ".docx"@, 0);
                assert(".png"@[3] == 'g');
                assert(".docx"@[4] == 'x');
            }
            reveal_strlit(".gif");
            if ends_with(l, ".gif"@) {
                lemma_suffix_char(l, ".gif"@, 0);
                lemma_suffix_char(l, ".docx"@, 0);
                assert(".gif"@[3] == 'f');
                assert(".docx"@[4] == 'x');
            }
            reveal_strlit(".mp4");
            if ends_with(l, ".mp4"@) {
                lemma_suffix_char(l, ".mp4"@, 0);
                lemma_suffix_char(l, ".docx"@, 0);
                assert(".mp4"@[3] == '4');
                assert(".docx"@[4] == 'x');
            }
            reveal_strlit(".mp3");
            if ends_with(l, ".mp3"@) {
                lemma_suffix_char(l, ".mp3"@, 0);
                lemma_suffix_char(l, ".docx"@, 0);
                assert(".mp3"@[3] == '3');
                assert(".docx"@[4] == 'x');
            }
            reveal_strlit(".apk");
            if ends_with(l, ".apk"@) {
                lemma_suffix_char(l, ".apk"@, 0);
                lemma_suffix_char(l, ".docx"@, 0);
                assert(".apk"@[3] == 'k');
                assert(".docx"@[4] == 'x');
            }
            reveal_strlit(".dex");
            if ends_with(l, ".dex"@) {
                lemma_suffix_char(l, ".dex"@, 1);
                lemma_suffix_char(l, ".docx"@, 1);
                assert(".dex"@[2] == 'e');
                assert(".docx"@[3] == 'c');
            }
            reveal_strlit(".db");
            if ends_with(l, ".db"@) {
                lemma_suffix_char(l, ".db"@, 0);
                lemma_suffix_char(l, ".docx"@, 0);
                assert(".db"@[2] == 'b');
                assert(".docx"@[4] == 'x');
            }
            reveal_strlit(".sqlite");
            if ends_with(l, ".sqlite"@) {
                lemma_suffix_char(l, ".sqlite"@, 0);
                lemma_suffix_char(l, ".docx"@, 0);
                assert(".sqlite"@[6] == 'e');
                assert(".docx"@[4] == 'x');
            }
            reveal_strlit(".pdf");
            if ends_with(l, ".pdf"@) {
                lemma_suffix_char(l, ".pdf"@, 0);
                lemma_suffix_char(l, ".docx"@, 0);
                assert(".pdf"@[3] == 'f');
                assert(".docx"@[4] == 'x');
            }
        },
        FileType::Xml => {
            reveal_strlit("xml");
            reveal_strlit(".xml");
            assert(seq!['.'] + "xml"@ =~= ".xml"@);
            reveal_strlit("application/");
            reveal_strlit("application/xml");
            assert("application/"@ + "xml"@ =~= "application/xml"@);
            reveal_strlit(".jpg");
            if ends_with(l, ".jpg"@) {
                lemma_suffix_char(l, ".jpg"@, 0);
                lemma_suffix_char(l, ".xml"@, 0);
                assert(".jpg"@[3] == 'g');
                assert(".xml"@[3] == 'l');
            }
            reveal_strlit(".jpeg");
            if ends_with(l, ".jpeg"@) {
                lemma_suffix_char(l, ".jpeg"@, 0);
                lemma_suffix_char(l, ".xml"@, 0);
                assert(".jpeg"@[4] == 'g');
                assert(".xml"@[3] == 'l');
            }
            reveal_strlit(".png");
            if ends_with(l, ".png"@) {
                lemma_suffix_char(l, ".png"@, 0);
                lemma_suffix_char(l, ".xml"@, 0);
                assert(".png"@[3] == 'g');
                assert(".xml"@[3] == 'l');
            }
            reveal_strlit(".gif");
            if ends_with(l, ".gif"@) {
                lemma_suffix_char(l, ".gif"@, 0);
                lemma_suffix_char(l, ".xml"@, 0);
                assert(".gif"@[3] == 'f');
                assert(".xml"@[3] == 'l');
            }
            reveal_strlit(".mp4");
            if ends_with(l, ".mp4"@) {
                lemma_suffix_char(l, ".mp4"@, 0);
                lemma_suffix_char(l, ".xml"@, 0);
                assert(".mp4"@[3] == '4');
                assert(".xml"@[3] == 'l');
            }
            reveal_strlit(".mp3");
            if ends_with(l, ".mp3"@) {
                lemma_suffix_char(l, ".mp3"@, 0);
                lemma_suffix_char(l, ".xml"@, 0);
                assert(".mp3"@[3] == '3');
                assert(".xml"@[3] == 'l');
            }
            reveal_strlit(".apk");
            if ends_with(l, ".apk"@) {
                lemma_suffix_char(l, ".apk"@, 0);
                lemma_suffix_char(l, ".xml"@, 0);
                assert(".apk"@[3] == 'k');
                assert(".xml"@[3] == 'l');
            }
            reveal_strlit(".dex");
            if ends_with(l, ".dex"@) {
                lemma_suffix_char(l, ".dex"@, 0);
                lemma_suffix_char(l, ".xml"@, 0);
                assert(".dex"@[3] == 'x');
                assert(".xml"@[3] == 'l');
            }
            reveal_strlit(".db");
            if ends_with(l, ".db"@) {
                lemma_suffix_char(l, ".db"@, 0);
                lemma_suffix_char(l, ".xml"@, 0);
                assert(".db"@[2] == 'b');
                assert(".xml"@[3] == 'l');
            }
            reveal_strlit(".sqlite");
            if ends_with(l, ".sqlite"@) {
                lemma_suffix_char(l, ".sqlite"@, 0);
                lemma_suffix_char(l, ".xml"@, 0);
                assert(".sqlite"@[6] == 'e');
                assert(".xml"@[3] == 'l');
            }
            reveal_strlit(".pdf");
            if ends_with(l, ".pdf"@) {
                lemma_suffix_char(l, ".pdf"@, 0);
                lemma_suffix_char(l, ".xml"@, 0);
                assert(".pdf"@[3] == 'f');
                assert(".xml"@[3] == 'l');
            }
            reveal_strlit(".doc");
            if ends_with(l, ".doc"@) {
                lemma_suffix_char(l, ".doc"@, 0);
                lemma_suffix_char(l, ".xml"@, 0);
                assert(".doc"@[3] == 'c');
                assert(".xml"@[3] == 'l');
            }
            reveal_strlit(".docx");
            if ends_with(l, ".docx"@) {
                lemma_suffix_char(l, ".docx"@, 0);
                lemma_suffix_char(l, ".xml"@, 0);
                assert(".docx"@[4] == 'x');
                assert(".xml"@[3] == 'l');
            }
        },
        FileType::Ogg => {
            reveal_strlit("ogg");
            reveal_strlit(".ogg");
            assert(seq!['.'] + "ogg"@ =~= ".ogg"@);
            reveal_strlit("audio/");
            reveal_strlit("audio/ogg");
            assert("audio/"@ + "ogg"@ =~= "audio/ogg"@);
            reveal_strlit(".jpg");
            if ends_with(l, ".jpg"@) {
                lemma_suffix_char(l, ".jpg"@, 1);
                lemma_suffix_char(l, ".ogg"@, 1);
                assert(".jpg"@[2] == 'p');
                assert(".ogg"@[2] == 'g');
            }
            reveal_strlit(".jpeg");
            if ends_with(l, ".jpeg"@) {
                lemma_suffix_char(l, ".jpeg"@, 1);
                lemma_suffix_char(l, ".ogg"@, 1);
                assert(".jpeg"@[3] == 'e');
                assert(".ogg"@[2] == 'g');
            }
            reveal_strlit(".png");
            if ends_with(l, ".png"@) {
                lemma_suffix_char(l, ".png"@, 1);
                lemma_suffix_char(l, ".ogg"@, 1);
                assert(".png"@[2] == 'n');
                assert(".ogg"@[2] == 'g');
            }
            reveal_strlit(".gif");
            if ends_with(l, ".gif"@) {
                lemma_suffix_char(l, ".gif"@, 0);
                lemma_suffix_char(l, ".ogg"@, 0);
                assert(".gif"@[3] == 'f');
                assert(".ogg"@[3] == 'g');
            }
            reveal_strlit(".mp4");
            if ends_with(l, ".mp4"@) {
                lemma_suffix_char(l, ".mp4"@, 0);
                lemma_suffix_char(l, ".ogg"@, 0);
                assert(".mp4"@[3] == '4');
                assert(".ogg"@[3] == 'g');
            }
            reveal_strlit(".mp3");
            if ends_with(l, ".mp3"@) {
                lemma_suffix_char(l, ".mp3"@, 0);
                lemma_suffix_char(l, ".ogg"@, 0);
                assert(".mp3"@[3] == '3');
                assert(".ogg"@[3] == 'g');
            }
            reveal_strlit(".apk");
            if ends_with(l, ".apk"@) {
                lemma_suffix_char(l, ".apk"@, 0);
                lemma_suffix_char(l, ".ogg"@, 0);
                assert(".apk"@[3] == 'k');
                assert(".ogg"@[3] == 'g');
            }
            reveal_strlit(".dex");
            if ends_with(l, ".dex"@) {
                lemma_suffix_char(l, ".dex"@, 0);
                lemma_suffix_char(l, ".ogg"@, 0);
                assert(".dex"@[3] == 'x');
                assert(".ogg"@[3] == 'g');
            }
            reveal_strlit(".db");
            if ends_with(l, ".db"@) {
                lemma_suffix_char(l, ".db"@, 0);
                lemma_suffix_char(l, ".ogg"@, 0);
                assert(".db"@[2] == 'b');
                assert(".ogg"@[3] == 'g');
            }
            reveal_strlit(".sqlite");
            if ends_with(l, ".sqlite"@) {
                lemma_suffix_char(l, ".sqlite"@, 0);
                lemma_suffix_char(l, ".ogg"@, 0);
                assert(".sqlite"@[6] == 'e');
                assert(".ogg"@[3] == 'g');
            }
            reveal_strlit(".pdf");
            if ends_with(l, ".pdf"@) {
                lemma_suffix_char(l, ".pdf"@, 0);
                lemma_suffix_char(l, ".ogg"@, 0);
                assert(".pdf"@[3] == 'f');
                assert(".ogg"@[3] == 'g');
            }
            reveal_strlit(".doc");
            if ends_with(l, ".doc"@) {
                lemma_suffix_char(l, ".doc"@, 0);
                lemma_suffix_char(l, ".ogg"@, 0);
                assert(".doc"@[3] == 'c');
                assert(".ogg"@[3] == 'g');
            }
            reveal_strlit(".docx");
            if ends_with(l, ".docx"@) {
                lemma_suffix_char(l, ".docx"@, 0);
                lemma_suffix_char(l, ".ogg"@, 0);
                assert(".docx"@[4] == 'x');
                assert(".ogg"@[3] == 'g');
            }
            reveal_strlit(".xml");
            if ends_with(l, ".xml"@) {
                lemma_suffix_char(l, ".xml"@, 0);
                lemma_suffix_char(l, ".ogg"@, 0);
                assert(".xml"@[3] == 'l');
                assert(".ogg"@[3] == 'g');
            }
        },
        FileType::Webp => {
            reveal_strlit("webp");
            reveal_strlit(".webp");
            assert(seq!['.'] + "webp"@ =~= ".webp"@);
            reveal_strlit("image/");
            reveal_strlit("image/webp");
            assert("image/"@ + "webp"@ =~= "image/webp"@);
            reveal_strlit(".jpg");
            if ends_with(l, ".jpg"@) {
                lemma_suffix_char(l, ".jpg"@, 0);
                lemma_suffix_char(l, ".webp"@, 0);
                assert(".jpg"@[3] == 'g');
                assert(".webp"@[4] == 'p');
            }
            reveal_strlit(".jpeg");
            if ends_with(l, ".jpeg"@) {
                lemma_suffix_char(l, ".jpeg"@, 0);
                lemma_suffix_char(l, ".webp"@, 0);
                assert(".jpeg"@[4] == 'g');
                assert(".webp"@[4] == 'p');
            }
            reveal_strlit(".png");
            if ends_with(l, ".png"@) {
                lemma_suffix_char(l, ".png"@, 0);
                lemma_suffix_char(l, ".webp"@, 0);
                assert(".png"@[3] == 'g');
                assert(".webp"@[4] == 'p');
            }
            reveal_strlit(".gif");
            if ends_with(l, ".gif"@) {
                lemma_suffix_char(l, ".gif"@, 0);
                lemma_suffix_char(l, ".webp"@, 0);
                assert(".gif"@[3] == 'f');
                assert(".webp"@[4] == 'p');
            }
            reveal_strlit(".mp4");
            if ends_with(l, ".mp4"@) {
                lemma_suffix_char(l, ".mp4"@, 0);
                lemma_suffix_char(l, ".webp"@, 0);
                assert(".mp4"@[3] == '4');
                assert(".webp"@[4] == 'p');
            }
            reveal_strlit(".mp3");
            if ends_with(l, ".mp3"@) {
                lemma_suffix_char(l, ".mp3"@, 0);
                lemma_suffix_char(l, ".webp"@, 0);
                assert(".mp3"@[3] == '3');
                assert(".webp"@[4] == 'p');
            }
            reveal_strlit(".apk");
            if ends_with(l, ".apk"@) {
                lemma_suffix_char(l, ".apk"@, 0);
                lemma_suffix_char(l, ".webp"@, 0);
                assert(".apk"@[3] == 'k');
                assert(".webp"@[4] == 'p');
            }
            reveal_strlit(".dex");
            if ends_with(l, ".dex"@) {
                lemma_suffix_char(l, ".dex"@, 0);
                lemma_suffix_char(l, ".webp"@, 0);
                assert(".dex"@[3] == 'x');
                assert(".webp"@[4] == 'p');
            }
            reveal_strlit(".db");
            if ends_with(l, ".db"@) {
                lemma_suffix_char(l, ".db"@, 0);
                lemma_suffix_char(l, ".webp"@, 0);
                assert(".db"@[2] == 'b');
                assert(".webp"@[4] == 'p');
            }
            reveal_strlit(".sqlite");
            if ends_with(l, ".sqlite"@) {
                lemma_suffix_char(l, ".sqlite"@, 0);
                lemma_suffix_char(l, ".webp"@, 0);
                assert(".sqlite"@[6] == 'e');
                assert(".webp"@[4] == 'p');
            }
            reveal_strlit(".pdf");
            if ends_with(l, ".pdf"@) {
                lemma_suffix_char(l, ".pdf"@, 0);
                lemma_suffix_char(l, ".webp"@, 0);
                assert(".pdf"@[3] == 'f');
                assert(".webp"@[4] == 'p');
            }
            reveal_strlit(".doc");
            if ends_with(l, ".doc"@) {
                lemma_suffix_char(l, ".doc"@, 0);
                lemma_suffix_char(l, ".webp"@, 0);
                assert(".doc"@[3] == 'c');
                assert(".webp"@[4] == 'p');
            }
            reveal_strlit(".docx");
            if ends_with(l, ".docx"@) {
                lemma_suffix_char(l, ".docx"@, 0);
                lemma_suffix_char(l, ".webp"@, 0);
                assert(".docx"@[4] == 'x');
                assert(".webp"@[4] == 'p');
            }
            reveal_strlit(".xml");
            if ends_with(l, ".xml"@) {
                lemma_suffix_char(l, ".xml"@, 0);
                lemma_suffix_char(l, ".webp"@, 0);
                assert(".xml"@[3] == 'l');
                assert(".webp"@[4] == 'p');
            }
            reveal_strlit(".ogg");
            if ends_with(l, ".ogg"@) {
                lemma_suffix_char(l, ".ogg"@, 0);
                lemma_suffix_char(l, ".webp"@, 0);
                assert(".ogg"@[3] == 'g');
                assert(".webp"@[4] == 'p');
            }
        },
        FileType::Heic => {
            reveal_strlit("heic");
            reveal_strlit(".heic");
            assert(seq!['.'] + "heic"@ =~= ".heic"@);
            reveal_strlit("image/");
            reveal_strlit("image/heic");
            assert("image/"@ + "heic"@ =~= "image/heic"@);
            reveal_strlit(".jpg");
            if ends_with(l, ".jpg"@) {
                lemma_suffix_char(l, ".jpg"@, 0);
                lemma_suffix_char(l, ".heic"@, 0);
                assert(".jpg"@[3] == 'g');
                assert(".heic"@[4] == 'c');
            }
            reveal_strlit(".jpeg");
            if ends_with(l, ".jpeg"@) {
                lemma_suffix_char(l, ".jpeg"@, 0);
                lemma_suffix_char(l, ".heic"@, 0);
                assert(".jpeg"@[4] == 'g');
                assert(".heic"@[4] == 'c');
            }
            reveal_strlit(".png");
            if ends_with(l, ".png"@) {
                lemma_suffix_char(l, ".png"@, 0);
                lemma_suffix_char(l, ".heic"@, 0);
                assert(".png"@[3] == 'g');
                assert(".heic"@[4] == 'c');
            }
            reveal_strlit(".gif");
            if ends_with(l, ".gif"@) {
                lemma_suffix_char(l, ".gif"@, 0);
                lemma_suffix_char(l, ".heic"@, 0);
                assert(".gif"@[3] == 'f');
                assert(".heic"@[4] == 'c');
            }
            reveal_strlit(".mp4");
            if ends_with(l, ".mp4"@) {
                lemma_suffix_char(l, ".mp4"@, 0);
                lemma_suffix_char(l, ".heic"@, 0);
                assert(".mp4"@[3] == '4');
                assert(".heic"@[4] == 'c');
            }
            reveal_strlit(".mp3");
            if ends_with(l, ".mp3"@) {
                lemma_suffix_char(l, ".mp3"@, 0);
                lemma_suffix_char(l, ".heic"@, 0);
                assert(".mp3"@[3] == '3');
                assert(".heic"@[4] == 'c');
            }
            reveal_strlit(".apk");
            if ends_with(l, ".apk"@) {
                lemma_suffix_char(l, ".apk"@, 0);
                lemma_suffix_char(l, ".heic"@, 0);
                assert(".apk"@[3] == 'k');
                assert(".heic"@[4] == 'c');
            }
            reveal_strlit(".dex");
            if ends_with(l, ".dex"@) {
                lemma_suffix_char(l, ".dex"@, 0);
                lemma_suffix_char(l, ".heic"@, 0);
                assert(".dex"@[3] == 'x');
                assert(".heic"@[4] == 'c');
            }
            reveal_strlit(".db");
            if ends_with(l, ".db"@) {
                lemma_suffix_char(l, ".db"@, 0);
                lemma_suffix_char(l, ".heic"@, 0);
                assert(".db"@[2] == 'b');
                assert(".heic"@[4] == 'c');
            }
            reveal_strlit(".sqlite");
            if ends_with(l, ".sqlite"@) {
                lemma_suffix_char(l, ".sqlite"@, 0);
                lemma_suffix_char(l, ".heic"@, 0);
                assert(".sqlite"@[6] == 'e');
                assert(".heic"@[4] == 'c');
            }
            reveal_strlit(".pdf");
            if ends_with(l, ".pdf"@) {
                lemma_suffix_char(l, ".pdf"@, 0);
                lemma_suffix_char(l, ".heic"@, 0);
                assert(".pdf"@[3] == 'f');
                assert(".heic"@[4] == 'c');
            }
            reveal_strlit(".doc");
            if ends_with(l, ".doc"@) {
                lemma_suffix_char(l, ".doc"@, 1);
                lemma_suffix_char(l, ".heic"@, 1);
                assert(".doc"@[2] == 'o');
                assert(".heic"@[3] == 'i');
            }
            reveal_strlit(".docx");
            if ends_with(l, ".docx"@) {
                lemma_suffix_char(l, ".docx"@, 0);
                lemma_suffix_char(l, ".heic"@, 0);
                assert(".docx"@[4] == 'x');
                assert(".heic"@[4] == 'c');
            }
            reveal_strlit(".xml");
            if ends_with(l, ".xml"@) {
                lemma_suffix_char(l, ".xml"@, 0);
                lemma_suffix_char(l, ".heic"@, 0);
                assert(".xml"@[3] == 'l');
                assert(".heic"@[4] == 'c');
            }
            reveal_strlit(".ogg");
            if ends_with(l, ".ogg"@) {
                lemma_suffix_char(l, ".ogg"@, 0);
                lemma_suffix_char(l, ".heic"@, 0);
                assert(".ogg"@[3] == 'g');
                assert(".heic"@[4] == 'c');
            }
            reveal_strlit(".webp");
            if ends_with(l, ".webp"@) {
                lemma_suffix_char(l, ".webp"@, 0);
                lemma_suffix_char(l, ".heic"@, 0);
                assert(".webp"@[4] == 'p');
                assert(".heic"@[4] == 'c');
            }
        },
        FileType::ThreeGp => {
            reveal_strlit("3gp");
            reveal_strlit(".3gp");
            assert(seq!['.'] + "3gp"@ =~= ".3gp"@);
            reveal_strlit(".jpg");
            if ends_with(l, ".jpg"@) {
                lemma_suffix_char(l, ".jpg"@, 0);
                lemma_suffix_char(l, ".3gp"@, 0);
                assert(".jpg"@[3] == 'g');
                assert(".3gp"@[3] == 'p');
            }
            reveal_strlit(".jpeg");
            if ends_with(l, ".jpeg"@) {
                lemma_suffix_char(l, ".jpeg"@, 0);
                lemma_suffix_char(l, ".3gp"@, 0);
                assert(".jpeg"@[4] == 'g');
                assert(".3gp"@[3] == 'p');
            }
            reveal_strlit(".png");
            if ends_with(l, ".png"@) {
                lemma_suffix_char(l, ".png"@, 0);
                lemma_suffix_char(l, ".3gp"@, 0);
                assert(".png"@[3] == 'g');
                assert(".3gp"@[3] == 'p');
            }
            reveal_strlit(".gif");
            if ends_with(l, ".gif"@) {
                lemma_suffix_char(l, ".gif"@, 0);
                lemma_suffix_char(l, ".3gp"@, 0);
                assert(".gif"@[3] == 'f');
                assert(".3gp"@[3] == 'p');
            }
            reveal_strlit(".mp4");
            if ends_with(l, ".mp4"@) {
                lemma_suffix_char(l, ".mp4"@, 0);
                lemma_suffix_char(l, ".3gp"@, 0);
                assert(".mp4"@[3] == '4');
                assert(".3gp"@[3] == 'p');
            }
            reveal_strlit(".mp3");
            if ends_with(l, ".mp3"@) {
                lemma_suffix_char(l, ".mp3"@, 0);
                lemma_suffix_char(l, ".3gp"@, 0);
                assert(".mp3"@[3] == '3');
                assert(".3gp"@[3] == 'p');
            }
            reveal_strlit(".apk");
            if ends_with(l, ".apk"@) {
                lemma_suffix_char(l, ".apk"@, 0);
                lemma_suffix_char(l, ".3gp"@, 0);
                assert(".apk"@[3] == 'k');
                assert(".3gp"@[3] == 'p');
            }
            reveal_strlit(".dex");
            if ends_with(l, ".dex"@) {
                lemma_suffix_char(l, ".dex"@, 0);
                lemma_suffix_char(l, ".3gp"@, 0);
                assert(".dex"@[3] == 'x');
                assert(".3gp"@[3] == 'p');
            }
            reveal_strlit(".db");
            if ends_with(l, ".db"@) {
                lemma_suffix_char(l, ".db"@, 0);
                lemma_suffix_char(l, ".3gp"@, 0);
                assert(".db"@[2] == 'b');
                assert(".3gp"@[3] == 'p');
            }
            reveal_strlit(".sqlite");
            if ends_with(l, ".sqlite"@) {
                lemma_suffix_char(l, ".sqlite"@, 0);
                lemma_suffix_char(l, ".3gp"@, 0);
                assert(".sqlite"@[6] == 'e');
                assert(".3gp"@[3] == 'p');
            }
            reveal_strlit(".pdf");
            if ends_with(l, ".pdf"@) {
                lemma_suffix_char(l, ".pdf"@, 0);
                lemma_suffix_char(l, ".3gp"@, 0);
                assert(".pdf"@[3] == 'f');
                assert(".3gp"@[3] == 'p');
            }
            reveal_strlit(".doc");
            if ends_with(l, ".doc"@) {
                lemma_suffix_char(l, ".doc"@, 0);
                lemma_suffix_char(l, ".3gp"@, 0);
                assert(".doc"@[3] == 'c');
                assert(".3gp"@[3] == 'p');
            }
            reveal_strlit(".docx");
            if ends_with(l, ".docx"@) {
                lemma_suffix_char(l, ".docx"@, 0);
                lemma_suffix_char(l, ".3gp"@, 0);
                assert(".docx"@[4] == 'x');
                assert(".3gp"@[3] == 'p');
            }
            reveal_strlit(".xml");
            if ends_with(l, ".xml"@) {
                lemma_suffix_char(l, ".xml"@, 0);
                lemma_suffix_char(l, ".3gp"@, 0);
                assert(".xml"@[3] == 'l');
                assert(".3gp"@[3] == 'p');
            }
            reveal_strlit(".ogg");
            if ends_with(l, ".ogg"@) {
                lemma_suffix_char(l, ".ogg"@, 0);
                lemma_suffix_char(l, ".3gp"@, 0);
                assert(".ogg"@[3] == 'g');
                assert(".3gp"@[3] == 'p');
            }
            reveal_strlit(".webp");
            if ends_with(l, ".webp"@) {
                lemma_suffix_char(l, ".webp"@, 1);
                lemma_suffix_char(l, ".3gp"@, 1);
                assert(".webp"@[3] == 'b');
                assert(".3gp"@[2] == 'g');
            }
            reveal_strlit(".heic");
            if ends_with(l, ".heic"@) {
                lemma_suffix_char(l, ".heic"@, 0);
                lemma_suffix_char(l, ".3gp"@, 0);
                assert(".heic"@[4] == 'c');
                assert(".3gp"@[3] == 'p');
            }
        },
        FileType::Avi => {
            reveal_strlit("avi");
            reveal_strlit(".avi");
            assert(seq!['.'] + "avi"@ =~= ".avi"@);
            reveal_strlit(".jpg");
            if ends_with(l, ".jpg"@) {
                lemma_suffix_char(l, ".jpg"@, 0);
                lemma_suffix_char(l, ".avi"@, 0);
                assert(".jpg"@[3] == 'g');
                assert(".avi"@[3] == 'i');
            }
            reveal_strlit(".jpeg");
            if ends_with(l, ".jpeg"@) {
                lemma_suffix_char(l, ".jpeg"@, 0);
                lemma_suffix_char(l, ".avi"@, 0);
                assert(".jpeg"@[4] == 'g');
                assert(".avi"@[3] == 'i');
            }
            reveal_strlit(".png");
            if ends_with(l, ".png"@) {
                lemma_suffix_char(l, ".png"@, 0);
                lemma_suffix_char(l, ".avi"@, 0);
                assert(".png"@[3] == 'g');
                assert(".avi"@[3] == 'i');
            }
            reveal_strlit(".gif");
            if ends_with(l, ".gif"@) {
                lemma_suffix_char(l, ".gif"@, 0);
                lemma_suffix_char(l, ".avi"@, 0);
                assert(".gif"@[3] == 'f');
                assert(".avi"@[3] == 'i');
            }
            reveal_strlit(".mp4");
            if ends_with(l, ".mp4"@) {
                lemma_suffix_char(l, ".mp4"@, 0);
                lemma_suffix_char(l, ".avi"@, 0);
                assert(".mp4"@[3] == '4');
                assert(".avi"@[3] == 'i');
            }
            reveal_strlit(".mp3");
            if ends_with(l, ".mp3"@) {
                lemma_suffix_char(l, ".mp3"@, 0);
                lemma_suffix_char(l, ".avi"@, 0);
                assert(".mp3"@[3] == '3');
                assert(".avi"@[3] == 'i');
            }
            reveal_strlit(".apk");
            if ends_with(l, ".apk"@) {
                lemma_suffix_char(l, ".apk"@, 0);
                lemma_suffix_char(l, ".avi"@, 0);
                assert(".apk"@[3] == 'k');
                assert(".avi"@[3] == 'i');
            }
            reveal_strlit(".dex");
            if ends_with(l, ".dex"@) {
                lemma_suffix_char(l, ".dex"@, 0);
                lemma_suffix_char(l, ".avi"@, 0);
                assert(".dex"@[3] == 'x');
                assert(".avi"@[3] == 'i');
            }
            reveal_strlit(".db");
            if ends_with(l, ".db"@) {
                lemma_suffix_char(l, ".db"@, 0);
                lemma_suffix_char(l, ".avi"@, 0);
                assert(".db"@[2] == 'b');
                assert(".avi"@[3] == 'i');
            }
            reveal_strlit(".sqlite");
            if ends_with(l, ".sqlite"@) {
                lemma_suffix_char(l, ".sqlite"@, 0);
                lemma_suffix_char(l, ".avi"@, 0);
                assert(".sqlite"@[6] == 'e');
                assert(".avi"@[3] == 'i');
            }
            reveal_strlit(".pdf");
            if ends_with(l, ".pdf"@) {
                lemma_suffix_char(l, ".pdf"@, 0);
                lemma_suffix_char(l, ".avi"@, 0);
                assert(".pdf"@[3] == 'f');
                assert(".avi"@[3] == 'i');
            }
            reveal_strlit(".doc");
            if ends_with(l, ".doc"@) {
                lemma_suffix_char(l, ".doc"@, 0);
                lemma_suffix_char(l, ".avi"@, 0);
                assert(".doc"@[3] == 'c');
                assert(".avi"@[3] == 'i');
            }
            reveal_strlit(".docx");
            if ends_with(l, ".docx"@) {
                lemma_suffix_char(l, ".docx"@, 0);
                lemma_suffix_char(l, ".avi"@, 0);
                assert(".docx"@[4] == 'x');
                assert(".avi"@[3] == 'i');
            }
            reveal_strlit(".xml");
            if ends_with(l, ".xml"@) {
                lemma_suffix_char(l, ".xml"@, 0);
                lemma_suffix_char(l, ".avi"@, 0);
                assert(".xml"@[3] == 'l');
                assert(".avi"@[3] == 'i');
            }
            reveal_strlit(".ogg");
            if ends_with(l, ".ogg"@) {
                lemma_suffix_char(l, ".ogg"@, 0);
                lemma_suffix_char(l, ".avi"@, 0);
                assert(".ogg"@[3] == 'g');
                assert(".avi"@[3] == 'i');
            }
            reveal_strlit(".webp");
            if ends_with(l, ".webp"@) {
                lemma_suffix_char(l, ".webp"@, 0);
                lemma_suffix_char(l, ".avi"@, 0);
                assert(".webp"@[4] == 'p');
                assert(".avi"@[3] == 'i');
            }
            reveal_strlit(".heic");
            if ends_with(l, ".heic"@) {
                lemma_suffix_char(l, ".heic"@, 0);
                lemma_suffix_char(l, ".avi"@, 0);
                assert(".heic"@[4] == 'c');
                assert(".avi"@[3] == 'i');
            }
            reveal_strlit(".3gp");
            if ends_with(l, ".3gp"@) {
                lemma_suffix_char(l, ".3gp"@, 0);
                lemma_suffix_char(l, ".avi"@, 0);
                assert(".3gp"@[3] == 'p');
                assert(".avi"@[3] == 'i');
            }
        },
        FileType::MkV => {
            reveal_strlit("mkv");
            reveal_strlit(".mkv");
            assert(seq!['.'] + "mkv"@ =~= ".mkv"@);
            reveal_strlit(".jpg");
            if ends_with(l, ".jpg"@) {
                lemma_suffix_char(l, ".jpg"@, 0);
                lemma_suffix_char(l, ".mkv"@, 0);
                assert(".jpg"@[3] == 'g');
                assert(".mkv"@[3] == 'v');
            }
            reveal_strlit(".jpeg");
            if ends_with(l, ".jpeg"@) {
                lemma_suffix_char(l, ".jpeg"@, 0);
                lemma_suffix_char(l, ".mkv"@, 0);
                assert(".jpeg"@[4] == 'g');
                assert(".mkv"@[3] == 'v');
            }
            reveal_strlit(".png");
            if ends_with(l, ".png"@) {
                lemma_suffix_char(l, ".png"@, 0);
                lemma_suffix_char(l, ".mkv"@, 0);
                assert(".png"@[3] == 'g');
                assert(".mkv"@[3] == 'v');
            }
            reveal_strlit(".gif");
            if ends_with(l, ".gif"@) {
                lemma_suffix_char(l, ".gif"@, 0);
                lemma_suffix_char(l, ".mkv"@, 0);
                assert(".gif"@[3] == 'f');
                assert(".mkv"@[3] == 'v');
            }
            reveal_strlit(".mp4");
            if ends_with(l, ".mp4"@) {
                lemma_suffix_char(l, ".mp4"@, 0);
                lemma_suffix_char(l, ".mkv"@, 0);
                assert(".mp4"@[3] == '4');
                assert(".mkv"@[3] == 'v');
            }
            reveal_strlit(".mp3");
            if ends_with(l, ".mp3"@) {
                lemma_suffix_char(l, ".mp3"@, 0);
                lemma_suffix_char(l, ".mkv"@, 0);
                assert(".mp3"@[3] == '3');
                assert(".mkv"@[3] == 'v');
            }
            reveal_strlit(".apk");
            if ends_with(l, ".apk"@) {
                lemma_suffix_char(l, ".apk"@, 0);
                lemma_suffix_char(l, ".mkv"@, 0);
                assert(".apk"@[3] == 'k');
                assert(".mkv"@[3] == 'v');
            }
            reveal_strlit(".dex");
            if ends_with(l, ".dex"@) {
                lemma_suffix_char(l, ".dex"@, 0);
                lemma_suffix_char(l, ".mkv"@, 0);
                assert(".dex"@[3] == 'x');
                assert(".mkv"@[3] == 'v');
            }
            reveal_strlit(".db");
            if ends_with(l, ".db"@) {
                lemma_suffix_char(l, ".db"@, 0);
                lemma_suffix_char(l, ".mkv"@, 0);
                assert(".db"@[2] == 'b');
                assert(".mkv"@[3] == 'v');
            }
            reveal_strlit(".sqlite");
            if ends_with(l, ".sqlite"@) {
                lemma_suffix_char(l, ".sqlite"@, 0);
                lemma_suffix_char(l, ".mkv"@, 0);
                assert(".sqlite"@[6] == 'e');
                assert(".mkv"@[3] == 'v');
            }
            reveal_strlit(".pdf");
            if ends_with(l, ".pdf"@) {
                lemma_suffix_char(l, ".pdf"@, 0);
                lemma_suffix_char(l, ".mkv"@, 0);
                assert(".pdf"@[3] == 'f');
                assert(".mkv"@[3] == 'v');
            }
            reveal_strlit(".doc");
            if ends_with(l, ".doc"@) {
                lemma_suffix_char(l, ".doc"@, 0);
                lemma_suffix_char(l, ".mkv"@, 0);
                assert(".doc"@[3] == 'c');
                assert(".mkv"@[3] == 'v');
            }
            reveal_strlit(".docx");
            if ends_with(l, ".docx"@) {
                lemma_suffix_char(l, ".docx"@, 0);
                lemma_suffix_char(l, ".mkv"@, 0);
                assert(".docx"@[4] == 'x');
                assert(".mkv"@[3] == 'v');
            }
            reveal_strlit(".xml");
            if ends_with(l, ".xml"@) {
                lemma_suffix_char(l, ".xml"@, 0);
                lemma_suffix_char(l, ".mkv"@, 0);
                assert(".xml"@[3] == 'l');
                assert(".mkv"@[3] == 'v');
            }
            reveal_strlit(".ogg");
            if ends_with(l, ".ogg"@) {
                lemma_suffix_char(l, ".ogg"@, 0);
                lemma_suffix_char(l, ".mkv"@, 0);
                assert(".ogg"@[3] == 'g');
                assert(".mkv"@[3] == 'v');
            }
            reveal_strlit(".webp");
            if ends_with(l, ".webp"@) {
                lemma_suffix_char(l, ".webp"@, 0);
                lemma_suffix_char(l, ".mkv"@, 0);
                assert(".webp"@[4] == 'p');
                assert(".mkv"@[3] == 'v');
            }
            reveal_strlit(".heic");
            if ends_with(l, ".heic"@) {
                lemma_suffix_char(l, ".heic"@, 0);
                lemma_suffix_char(l, ".mkv"@, 0);
                assert(".heic"@[4] == 'c');
                assert(".mkv"@[3] == 'v');
            }
            reveal_strlit(".3gp");
            if ends_with(l, ".3gp"@) {
                lemma_suffix_char(l, ".3gp"@, 0);
                lemma_suffix_char(l, ".mkv"@, 0);
                assert(".3gp"@[3] == 'p');
                assert(".mkv"@[3] == 'v');
            }
            reveal_strlit(".avi");
            if ends_with(l, ".avi"@) {
                lemma_suffix_char(l, ".avi"@, 0);
                lemma_suffix_char(l, ".mkv"@, 0);
                assert(".avi"@[3] == 'i');
                assert(".mkv"@[3] == 'v');
            }
        },
        FileType::Zip => {
            reveal_strlit("zip");
            reveal_strlit(".zip");
            assert(seq!['.'] + "zip"@ =~= ".zip"@);
            reveal_strlit("application/");
            reveal_strlit("application/zip");
            assert("application/"@ + "zip"@ =~= "application/zip"@);
            reveal_strlit(".jpg");
            if ends_with(l, ".jpg"@) {
                lemma_suffix_char(l, ".jpg"@, 0);
                lemma_suffix_char(l, ".zip"@, 0);
                assert(".jpg"@[3] == 'g');
                assert(".zip"@[3] == 'p');
            }
            reveal_strlit(".jpeg");
            if ends_with(l, ".jpeg"@) {
                lemma_suffix_char(l, ".jpeg"@, 0);
                lemma_suffix_char(l, ".zip"@, 0);
                assert(".jpeg"@[4] == 'g');
                assert(".zip"@[3] == 'p');
            }
            reveal_strlit(".png");
            if ends_with(l, ".png"@) {
                lemma_suffix_char(l, ".png"@, 0);
                lemma_suffix_char(l, ".zip"@, 0);
                assert(".png"@[3] == 'g');
                assert(".zip"@[3] == 'p');
            }
            reveal_strlit(".gif");
            if ends_with(l, ".gif"@) {
                lemma_suffix_char(l, ".gif"@, 0);
                lemma_suffix_char(l, ".zip"@, 0);
                assert(".gif"@[3] == 'f');
                assert(".zip"@[3] == 'p');
            }
            reveal_strlit(".mp4");
            if ends_with(l, ".mp4"@) {
                lemma_suffix_char(l, ".mp4"@, 0);
                lemma_suffix_char(l, ".zip"@, 0);
                assert(".mp4"@[3] == '4');
                assert(".zip"@[3] == 'p');
            }
            reveal_strlit(".mp3");
            if ends_with(l, ".mp3"@) {
                lemma_suffix_char(l, ".mp3"@, 0);
                lemma_suffix_char(l, ".zip"@, 0);
                assert(".mp3"@[3] == '3');
                assert(".zip"@[3] == 'p');
            }
            reveal_strlit(".apk");
            if ends_with(l, ".apk"@) {
                lemma_suffix_char(l, ".apk"@, 0);
                lemma_suffix_char(l, ".zip"@, 0);
                assert(".apk"@[3] == 'k');
                assert(".zip"@[3] == 'p');
            }
            reveal_strlit(".dex");
            if ends_with(l, ".dex"@) {
                lemma_suffix_char(l, ".dex"@, 0);
                lemma_suffix_char(l, ".zip"@, 0);
                assert(".dex"@[3] == 'x');
                assert(".zip"@[3] == 'p');
            }
            reveal_strlit(".db");
            if ends_with(l, ".db"@) {
                lemma_suffix_char(l, ".db"@, 0);
                lemma_suffix_char(l, ".zip"@, 0);
                assert(".db"@[2] == 'b');
                assert(".zip"@[3] == 'p');
            }
            reveal_strlit(".sqlite");
            if ends_with(l, ".sqlite"@) {
                lemma_suffix_char(l, ".sqlite"@, 0);
                lemma_suffix_char(l, ".zip"@, 0);
                assert(".sqlite"@[6] == 'e');
                assert(".zip"@[3] == 'p');
            }
            reveal_strlit(".pdf");
            if ends_with(l, ".pdf"@) {
                lemma_suffix_char(l, ".pdf"@, 0);
                lemma_suffix_char(l, ".zip"@, 0);
                assert(".pdf"@[3] == 'f');
                assert(".zip"@[3] == 'p');
            }
            reveal_strlit(".doc");
            if ends_with(l, ".doc"@) {
                lemma_suffix_char(l, ".doc"@, 0);
                lemma_suffix_char(l, ".zip"@, 0);
                assert(".doc"@[3] == 'c');
                assert(".zip"@[3] == 'p');
            }
            reveal_strlit(".docx");
            if ends_with(l, ".docx"@) {
                lemma_suffix_char(l, ".docx"@, 0);
                lemma_suffix_char(l, ".zip"@, 0);
                assert(".docx"@[4] == 'x');
                assert(".zip"@[3] == 'p');
            }
            reveal_strlit(".xml");
            if ends_with(l, ".xml"@) {
                lemma_suffix_char(l, ".xml"@, 0);
                lemma_suffix_char(l, ".zip"@, 0);
                assert(".xml"@[3] == 'l');
                assert(".zip"@[3] == 'p');
            }
            reveal_strlit(".ogg");
            if ends_with(l, ".ogg"@) {
                lemma_suffix_char(l, ".ogg"@, 0);
                lemma_suffix_char(l, ".zip"@, 0);
                assert(".ogg"@[3] == 'g');
                assert(".zip"@[3] == 'p');
            }
            reveal_strlit(".webp");
            if ends_with(l, ".webp"@) {
                lemma_suffix_char(l, ".webp"@, 1);
                lemma_suffix_char(l, ".zip"@, 1);
                assert(".webp"@[3] == 'b');
                assert(".zip"@[2] == 'i');
            }
            reveal_strlit(".heic");
            if ends_with(l, ".heic"@) {
                lemma_suffix_char(l, ".heic"@, 0);
                lemma_suffix_char(l, ".zip"@, 0);
                assert(".heic"@[4] == 'c');
                assert(".zip"@[3] == 'p');
            }
            reveal_strlit(".3gp");
            if ends_with(l, ".3gp"@) {
                lemma_suffix_char(l, ".3gp"@, 1);
                lemma_suffix_char(l, ".zip"@, 1);
                assert(".3gp"@[2] == 'g');
                assert(".zip"@[2] == 'i');
            }
            reveal_strlit(".avi");
            if ends_with(l, ".avi"@) {
                lemma_suffix_char(l, ".avi"@, 0);
                lemma_suffix_char(l, ".zip"@, 0);
                assert(".avi"@[3] == 'i');
                assert(".zip"@[3] == 'p');
            }
            reveal_strlit(".mkv");
            if ends_with(l, ".mkv"@) {
                lemma_suffix_char(l, ".mkv"@, 0);
                lemma_suffix_char(l, ".zip"@, 0);
                assert(".mkv"@[3] == 'v');
                assert(".zip"@[3] == 'p');
            }
        },
        FileType::Text => {
            reveal_strlit("txt");
            reveal_strlit(".txt");
            assert(seq!['.'] + "txt"@ =~= ".txt"@);
            reveal_strlit(".jpg");
            if ends_with(l, ".jpg"@) {
                lemma_suffix_char(l, ".jpg"@, 0);
                lemma_suffix_char(l, ".txt"@, 0);
                assert(".jpg"@[3] == 'g');
                assert(".txt"@[3] == 't');
            }
            reveal_strlit(".jpeg");
            if ends_with(l, ".jpeg"@) {
                lemma_suffix_char(l, ".jpeg"@, 0);
                lemma_suffix_char(l, ".txt"@, 0);
                assert(".jpeg"@[4] == 'g');
                assert(".txt"@[3] == 't');
            }
            reveal_strlit(".png");
            if ends_with(l, ".png"@) {
                lemma_suffix_char(l, ".png"@, 0);
                lemma_suffix_char(l, ".txt"@, 0);
                assert(".png"@[3] == 'g');
                assert(".txt"@[3] == 't');
            }
            reveal_strlit(".gif");
            if ends_with(l, ".gif"@) {
                lemma_suffix_char(l, ".gif"@, 0);
                lemma_suffix_char(l, ".txt"@, 0);
                assert(".gif"@[3] == 'f');
                assert(".txt"@[3] == 't');
            }
            reveal_strlit(".mp4");
            if ends_with(l, ".mp4"@) {
                lemma_suffix_char(l, ".mp4"@, 0);
                lemma_suffix_char(l, ".txt"@, 0);
                assert(".mp4"@[3] == '4');
                assert(".txt"@[3] == 't');
            }
            reveal_strlit(".mp3");
            if ends_with(l, ".mp3"@) {
                lemma_suffix_char(l, ".mp3"@, 0);
                lemma_suffix_char(l, ".txt"@, 0);
                assert(".mp3"@[3] == '3');
                assert(".txt"@[3] == 't');
            }
            reveal_strlit(".apk");
            if ends_with(l, ".apk"@) {
                lemma_suffix_char(l, ".apk"@, 0);
                lemma_suffix_char(l, ".txt"@, 0);
                assert(".apk"@[3] == 'k');
                assert(".txt"@[3] == 't');
            }
            reveal_strlit(".dex");
            if ends_with(l, ".dex"@) {
                lemma_suffix_char(l, ".dex"@, 0);
                lemma_suffix_char(l, ".txt"@, 0);
                assert(".dex"@[3] == 'x');
                assert(".txt"@[3] == 't');
            }
            reveal_strlit(".db");
            if ends_with(l, ".db"@) {
                lemma_suffix_char(l, ".db"@, 0);
                lemma_suffix_char(l, ".txt"@, 0);
                assert(".db"@[2] == 'b');
                assert(".txt"@[3] == 't');
            }
            reveal_strlit(".sqlite");
            if ends_with(l, ".sqlite"@) {
                lemma_suffix_char(l, ".sqlite"@, 0);
                lemma_suffix_char(l, ".txt"@, 0);
                assert(".sqlite"@[6] == 'e');
                assert(".txt"@[3] == 't');
            }
            reveal_strlit(".pdf");
            if ends_with(l, ".pdf"@) {
                lemma_suffix_char(l, ".pdf"@, 0);
                lemma_suffix_char(l, ".txt"@, 0);
                assert(".pdf"@[3] == 'f');
                assert(".txt"@[3] == 't');
            }
            reveal_strlit(".doc");
            if ends_with(l, ".doc"@) {
                lemma_suffix_char(l, ".doc"@, 0);
                lemma_suffix_char(l, ".txt"@, 0);
                assert(".doc"@[3] == 'c');
                assert(".txt"@[3] == 't');
            }
            reveal_strlit(".docx");
            if ends_with(l, ".docx"@) {
                lemma_suffix_char(l, ".docx"@, 0);
                lemma_suffix_char(l, ".txt"@, 0);
                assert(".docx"@[4] == 'x');
                assert(".txt"@[3] == 't');
            }
            reveal_strlit(".xml");
            if ends_with(l, ".xml"@) {
                lemma_suffix_char(l, ".xml"@, 0);
                lemma_suffix_char(l, ".txt"@, 0);
                assert(".xml"@[3] == 'l');
                assert(".txt"@[3] == 't');
            }
            reveal_strlit(".ogg");
            if ends_with(l, ".ogg"@) {
                lemma_suffix_char(l, ".ogg"@, 0);
                lemma_suffix_char(l, ".txt"@, 0);
                assert(".ogg"@[3] == 'g');
                assert(".txt"@[3] == 't');
            }
            reveal_strlit(".webp");
            if ends_with(l, ".webp"@) {
                lemma_suffix_char(l, ".webp"@, 0);
                lemma_suffix_char(l, ".txt"@, 0);
                assert(".webp"@[4] == 'p');
                assert(".txt"@[3] == 't');
            }
            reveal_strlit(".heic");
            if ends_with(l, ".heic"@) {
                lemma_suffix_char(l, ".heic"@, 0);
                lemma_suffix_char(l, ".txt"@, 0);
                assert(".heic"@[4] == 'c');
                assert(".txt"@[3] == 't');
            }
            reveal_strlit(".3gp");
            if ends_with(l, ".3gp"@) {
                lemma_suffix_char(l, ".3gp"@, 0);
                lemma_suffix_char(l, ".txt"@, 0);
                assert(".3gp"@[3] == 'p');
                assert(".txt"@[3] == 't');
            }
            reveal_strlit(".avi");
            if ends_with(l, ".avi"@) {
                lemma_suffix_char(l, ".avi"@, 0);
                lemma_suffix_char(l, ".txt"@, 0);
                assert(".avi"@[3] == 'i');
                assert(".txt"@[3] == 't');
            }
            reveal_strlit(".mkv");
            if ends_with(l, ".mkv"@) {
                lemma_suffix_char(l, ".mkv"@, 0);
                lemma_suffix_char(l, ".txt"@, 0);
                assert(".mkv"@[3] == 'v');
                assert(".txt"@[3] == 't');
            }
            reveal_strlit(".zip");
            if ends_with(l, ".zip"@) {
                lemma_suffix_char(l, ".zip"@, 0);
                lemma_suffix_char(l, ".txt"@, 0);
                assert(".zip"@[3] == 'p');
                assert(".txt"@[3] == 't');
            }
            reveal_strlit(".jar");
            if ends_with(l, ".jar"@) {
                lemma_suffix_char(l, ".jar"@, 0);
                lemma_suffix_char(l, ".txt"@, 0);
                assert(".jar"@[3] == 'r');
                assert(".txt"@[3] == 't');
            }
        },
        _ => {},
    }
}

} // verus!
