//! File types known to the scanner and the database of magic-byte signatures.

use vstd::prelude::*;
use crate::bytes::{
    be_u32, bytes_at, bytes_at_exec, first_match, last_match, le_u16, le_u32, read_be_u32, read_le_u16,
    read_le_u32,
};

verus! {

/// The kinds of file the scanner can recognise.
#[derive(Clone, Copy, Debug, PartialEq, Eq, Structural, Hash)]
pub enum FileType {
    Jpeg,
    Png,
    Gif,
    Bmp,
    Tiff,
    Webp,
    Ico,
    Heic,
    Raw,
    Psd,
    Ai,
    Svg,
    Pdf,
    Doc,
    Docx,
    Xls,
    Xlsx,
    Ppt,
    Pptx,
    Odt,
    Zip,
    Rar,
    SevenZip,
    Tar,
    Gzip,
    Mp3,
    Wav,
    Flac,
    Aac,
    Ogg,
    Wma,
    Mp4,
    Avi,
    MkV,
    Mov,
    Wmv,
    WebM,
    Flv,
    Exe,
    Dll,
    Msi,
    Apk,
    Dex,
    Db,
    Xml,
    ThreeGp,
    Text,
    AndroidFile,
    Unknown,
}

/// The file extension (without dot) used for a file type.
pub open spec fn spec_extension(t: FileType) -> Seq<char> {
    match t {
        FileType::Jpeg => "jpg"@,
        FileType::Png => "png"@,
        FileType::Gif => "gif"@,
        FileType::Bmp => "bmp"@,
        FileType::Tiff => "tiff"@,
        FileType::Webp => "webp"@,
        FileType::Ico => "ico"@,
        FileType::Heic => "heic"@,
        FileType::Raw => "raw"@,
        FileType::Psd => "psd"@,
        FileType::Ai => "ai"@,
        FileType::Svg => "svg"@,
        FileType::Pdf => "pdf"@,
        FileType::Doc => "doc"@,
        FileType::Docx => "docx"@,
        FileType::Xls => "xls"@,
        FileType::Xlsx => "xlsx"@,
        FileType::Ppt => "ppt"@,
        FileType::Pptx => "pptx"@,
        FileType::Odt => "odt"@,
        FileType::Zip => "zip"@,
        FileType::Rar => "rar"@,
        FileType::SevenZip => "7z"@,
        FileType::Tar => "tar"@,
        FileType::Gzip => "gz"@,
        FileType::Mp3 => "mp3"@,
        FileType::Wav => "wav"@,
        FileType::Flac => "flac"@,
        FileType::Aac => "aac"@,
        FileType::Ogg => "ogg"@,
        FileType::Wma => "wma"@,
        FileType::Mp4 => "mp4"@,
        FileType::Avi => "avi"@,
        FileType::MkV => "mkv"@,
        FileType::Mov => "mov"@,
        FileType::Wmv => "wmv"@,
        FileType::WebM => "webm"@,
        FileType::Flv => "flv"@,
        FileType::Exe => "exe"@,
        FileType::Dll => "dll"@,
        FileType::Msi => "msi"@,
        FileType::Apk => "apk"@,
        FileType::Dex => "dex"@,
        FileType::Db => "db"@,
        FileType::Xml => "xml"@,
        FileType::ThreeGp => "3gp"@,
        FileType::Text => "txt"@,
        FileType::AndroidFile => "bin"@,
        FileType::Unknown => "bin"@,
    }
}

/// The human-readable name of a file type.
pub open spec fn spec_display_name(t: FileType) -> Seq<char> {
    match t {
        FileType::Jpeg => "JPEG Image"@,
        FileType::Png => "PNG Image"@,
        FileType::Gif => "GIF Image"@,
        FileType::Bmp => "Bitmap Image"@,
        FileType::Tiff => "TIFF Image"@,
        FileType::Webp => "WebP Image"@,
        FileType::Ico => "Icon"@,
        FileType::Heic => "HEIC Image"@,
        FileType::Raw => "RAW Image"@,
        FileType::Psd => "Photoshop Doc"@,
        FileType::Ai => "Adobe Illustrator"@,
        FileType::Svg => "SVG Image"@,
        FileType::Pdf => "PDF Document"@,
        FileType::Doc => "Word Document"@,
        FileType::Docx => "Word Document"@,
        FileType::Xls => "Excel Spreadsheet"@,
        FileType::Xlsx => "Excel Spreadsheet"@,
        FileType::Ppt => "PowerPoint"@,
        FileType::Pptx => "PowerPoint"@,
        FileType::Odt => "OpenDocument"@,
        FileType::Zip => "ZIP Archive"@,
        FileType::Rar => "RAR Archive"@,
        FileType::SevenZip => "7-Zip Archive"@,
        FileType::Tar => "TAR Archive"@,
        FileType::Gzip => "GZIP Archive"@,
        FileType::Mp3 => "MP3 Audio"@,
        FileType::Wav => "WAV Audio"@,
        FileType::Flac => "FLAC Audio"@,
        FileType::Aac => "AAC Audio"@,
        FileType::Ogg => "OGG Audio"@,
        FileType::Wma => "WMA Audio"@,
        FileType::Mp4 => "MP4 Video"@,
        FileType::Avi => "AVI Video"@,
        FileType::MkV => "MKV Video"@,
        FileType::Mov => "MOV Video"@,
        FileType::Wmv => "WMV Video"@,
        FileType::WebM => "WebM Video"@,
        FileType::Flv => "FLV Video"@,
        FileType::Exe => "Executable"@,
        FileType::Dll => "Dynamic Library"@,
        FileType::Msi => "Installer"@,
        FileType::Apk => "Android Package"@,
        FileType::Dex => "Dalvik Executable"@,
        FileType::Db => "SQLite Database"@,
        FileType::Xml => "XML Document"@,
        FileType::ThreeGp => "3GP Video"@,
        FileType::Text => "Text Document"@,
        FileType::AndroidFile => "Android File"@,
        FileType::Unknown => "Unknown"@,
    }
}

/// The category (group) that a file type belongs to.
pub open spec fn spec_category(t: FileType) -> Seq<char> {
    match t {
        FileType::Jpeg => "Imágenes"@,
        FileType::Png => "Imágenes"@,
        FileType::Gif => "Imágenes"@,
        FileType::Bmp => "Imágenes"@,
        FileType::Tiff => "Imágenes"@,
        FileType::Webp => "Imágenes"@,
        FileType::Ico => "Imágenes"@,
        FileType::Heic => "Imágenes"@,
        FileType::Raw => "Imágenes"@,
        FileType::Psd => "Imágenes"@,
        FileType::Ai => "Imágenes"@,
        FileType::Svg => "Imágenes"@,
        FileType::Pdf => "Documentos"@,
        FileType::Doc => "Documentos"@,
        FileType::Docx => "Documentos"@,
        FileType::Xls => "Documentos"@,
        FileType::Xlsx => "Documentos"@,
        FileType::Ppt => "Documentos"@,
        FileType::Pptx => "Documentos"@,
        FileType::Odt => "Documentos"@,
        FileType::Zip => "Archivos"@,
        FileType::Rar => "Archivos"@,
        FileType::SevenZip => "Archivos"@,
        FileType::Tar => "Archivos"@,
        FileType::Gzip => "Archivos"@,
        FileType::Mp3 => "Audio"@,
        FileType::Wav => "Audio"@,
        FileType::Flac => "Audio"@,
        FileType::Aac => "Audio"@,
        FileType::Ogg => "Audio"@,
        FileType::Wma => "Audio"@,
        FileType::Mp4 => "Video"@,
        FileType::Avi => "Video"@,
        FileType::MkV => "Video"@,
        FileType::Mov => "Video"@,
        FileType::Wmv => "Video"@,
        FileType::WebM => "Video"@,
        FileType::Flv => "Video"@,
        FileType::Exe => "Ejecutables"@,
        FileType::Dll => "Ejecutables"@,
        FileType::Msi => "Ejecutables"@,
        FileType::Apk => "Ejecutables"@,
        FileType::Dex => "Ejecutables"@,
        FileType::Db => "Documentos"@,
        FileType::Xml => "Documentos"@,
        FileType::ThreeGp => "Video"@,
        FileType::Text => "Documentos"@,
        FileType::AndroidFile => "Otros"@,
        FileType::Unknown => "Otros"@,
    }
}

/// The extension of a file type in upper case.
pub open spec fn spec_extension_upper(t: FileType) -> Seq<char> {
    match t {
        FileType::Jpeg => "JPG"@,
        FileType::Png => "PNG"@,
        FileType::Gif => "GIF"@,
        FileType::Bmp => "BMP"@,
        FileType::Tiff => "TIFF"@,
        FileType::Webp => "WEBP"@,
        FileType::Ico => "ICO"@,
        FileType::Heic => "HEIC"@,
        FileType::Raw => "RAW"@,
        FileType::Psd => "PSD"@,
        FileType::Ai => "AI"@,
        FileType::Svg => "SVG"@,
        FileType::Pdf => "PDF"@,
        FileType::Doc => "DOC"@,
        FileType::Docx => "DOCX"@,
        FileType::Xls => "XLS"@,
        FileType::Xlsx => "XLSX"@,
        FileType::Ppt => "PPT"@,
        FileType::Pptx => "PPTX"@,
        FileType::Odt => "ODT"@,
        FileType::Zip => "ZIP"@,
        FileType::Rar => "RAR"@,
        FileType::SevenZip => "7Z"@,
        FileType::Tar => "TAR"@,
        FileType::Gzip => "GZ"@,
        FileType::Mp3 => "MP3"@,
        FileType::Wav => "WAV"@,
        FileType::Flac => "FLAC"@,
        FileType::Aac => "AAC"@,
        FileType::Ogg => "OGG"@,
        FileType::Wma => "WMA"@,
        FileType::Mp4 => "MP4"@,
        FileType::Avi => "AVI"@,
        FileType::MkV => "MKV"@,
        FileType::Mov => "MOV"@,
        FileType::Wmv => "WMV"@,
        FileType::WebM => "WEBM"@,
        FileType::Flv => "FLV"@,
        FileType::Exe => "EXE"@,
        FileType::Dll => "DLL"@,
        FileType::Msi => "MSI"@,
        FileType::Apk => "APK"@,
        FileType::Dex => "DEX"@,
        FileType::Db => "DB"@,
        FileType::Xml => "XML"@,
        FileType::ThreeGp => "3GP"@,
        FileType::Text => "TXT"@,
        FileType::AndroidFile => "BIN"@,
        FileType::Unknown => "BIN"@,
    }
}

impl FileType {
    /// Extension of files of this type, in upper case.
    pub fn extension_upper(&self) -> (r: &'static str)
        ensures
            r@ == spec_extension_upper(*self),
    {
        match self {
            FileType::Jpeg => "JPG",
            FileType::Png => "PNG",
            FileType::Gif => "GIF",
            FileType::Bmp => "BMP",
            FileType::Tiff => "TIFF",
            FileType::Webp => "WEBP",
            FileType::Ico => "ICO",
            FileType::Heic => "HEIC",
            FileType::Raw => "RAW",
            FileType::Psd => "PSD",
            FileType::Ai => "AI",
            FileType::Svg => "SVG",
            FileType::Pdf => "PDF",
            FileType::Doc => "DOC",
            FileType::Docx => "DOCX",
            FileType::Xls => "XLS",
            FileType::Xlsx => "XLSX",
            FileType::Ppt => "PPT",
            FileType::Pptx => "PPTX",
            FileType::Odt => "ODT",
            FileType::Zip => "ZIP",
            FileType::Rar => "RAR",
            FileType::SevenZip => "7Z",
            FileType::Tar => "TAR",
            FileType::Gzip => "GZ",
            FileType::Mp3 => "MP3",
            FileType::Wav => "WAV",
            FileType::Flac => "FLAC",
            FileType::Aac => "AAC",
            FileType::Ogg => "OGG",
            FileType::Wma => "WMA",
            FileType::Mp4 => "MP4",
            FileType::Avi => "AVI",
            FileType::MkV => "MKV",
            FileType::Mov => "MOV",
            FileType::Wmv => "WMV",
            FileType::WebM => "WEBM",
            FileType::Flv => "FLV",
            FileType::Exe => "EXE",
            FileType::Dll => "DLL",
            FileType::Msi => "MSI",
            FileType::Apk => "APK",
            FileType::Dex => "DEX",
            FileType::Db => "DB",
            FileType::Xml => "XML",
            FileType::ThreeGp => "3GP",
            FileType::Text => "TXT",
            FileType::AndroidFile => "BIN",
            FileType::Unknown => "BIN",
        }
    }

    /// Extension (without dot) of files of this type.
    pub fn extension(&self) -> (r: &'static str)
        ensures
            r@ == spec_extension(*self),
    {
        match self {
            FileType::Jpeg => "jpg",
            FileType::Png => "png",
            FileType::Gif => "gif",
            FileType::Bmp => "bmp",
            FileType::Tiff => "tiff",
            FileType::Webp => "webp",
            FileType::Ico => "ico",
            FileType::Heic => "heic",
            FileType::Raw => "raw",
            FileType::Psd => "psd",
            FileType::Ai => "ai",
            FileType::Svg => "svg",
            FileType::Pdf => "pdf",
            FileType::Doc => "doc",
            FileType::Docx => "docx",
            FileType::Xls => "xls",
            FileType::Xlsx => "xlsx",
            FileType::Ppt => "ppt",
            FileType::Pptx => "pptx",
            FileType::Odt => "odt",
            FileType::Zip => "zip",
            FileType::Rar => "rar",
            FileType::SevenZip => "7z",
            FileType::Tar => "tar",
            FileType::Gzip => "gz",
            FileType::Mp3 => "mp3",
            FileType::Wav => "wav",
            FileType::Flac => "flac",
            FileType::Aac => "aac",
            FileType::Ogg => "ogg",
            FileType::Wma => "wma",
            FileType::Mp4 => "mp4",
            FileType::Avi => "avi",
            FileType::MkV => "mkv",
            FileType::Mov => "mov",
            FileType::Wmv => "wmv",
            FileType::WebM => "webm",
            FileType::Flv => "flv",
            FileType::Exe => "exe",
            FileType::Dll => "dll",
            FileType::Msi => "msi",
            FileType::Apk => "apk",
            FileType::Dex => "dex",
            FileType::Db => "db",
            FileType::Xml => "xml",
            FileType::ThreeGp => "3gp",
            FileType::Text => "txt",
            FileType::AndroidFile => "bin",
            FileType::Unknown => "bin",
        }
    }

    /// Human-readable name of this type.
    pub fn display_name(&self) -> (r: &'static str)
        ensures
            r@ == spec_display_name(*self),
    {
        match self {
            FileType::Jpeg => "JPEG Image",
            FileType::Png => "PNG Image",
            FileType::Gif => "GIF Image",
            FileType::Bmp => "Bitmap Image",
            FileType::Tiff => "TIFF Image",
            FileType::Webp => "WebP Image",
            FileType::Ico => "Icon",
            FileType::Heic => "HEIC Image",
            FileType::Raw => "RAW Image",
            FileType::Psd => "Photoshop Doc",
            FileType::Ai => "Adobe Illustrator",
            FileType::Svg => "SVG Image",
            FileType::Pdf => "PDF Document",
            FileType::Doc => "Word Document",
            FileType::Docx => "Word Document",
            FileType::Xls => "Excel Spreadsheet",
            FileType::Xlsx => "Excel Spreadsheet",
            FileType::Ppt => "PowerPoint",
            FileType::Pptx => "PowerPoint",
            FileType::Odt => "OpenDocument",
            FileType::Zip => "ZIP Archive",
            FileType::Rar => "RAR Archive",
            FileType::SevenZip => "7-Zip Archive",
            FileType::Tar => "TAR Archive",
            FileType::Gzip => "GZIP Archive",
            FileType::Mp3 => "MP3 Audio",
            FileType::Wav => "WAV Audio",
            FileType::Flac => "FLAC Audio",
            FileType::Aac => "AAC Audio",
            FileType::Ogg => "OGG Audio",
            FileType::Wma => "WMA Audio",
            FileType::Mp4 => "MP4 Video",
            FileType::Avi => "AVI Video",
            FileType::MkV => "MKV Video",
            FileType::Mov => "MOV Video",
            FileType::Wmv => "WMV Video",
            FileType::WebM => "WebM Video",
            FileType::Flv => "FLV Video",
            FileType::Exe => "Executable",
            FileType::Dll => "Dynamic Library",
            FileType::Msi => "Installer",
            FileType::Apk => "Android Package",
            FileType::Dex => "Dalvik Executable",
            FileType::Db => "SQLite Database",
            FileType::Xml => "XML Document",
            FileType::ThreeGp => "3GP Video",
            FileType::Text => "Text Document",
            FileType::AndroidFile => "Android File",
            FileType::Unknown => "Unknown",
        }
    }

    /// Category this type belongs to.
    pub fn category(&self) -> (r: &'static str)
        ensures
            r@ == spec_category(*self),
    {
        match self {
            FileType::Jpeg => "Imágenes",
            FileType::Png => "Imágenes",
            FileType::Gif => "Imágenes",
            FileType::Bmp => "Imágenes",
            FileType::Tiff => "Imágenes",
            FileType::Webp => "Imágenes",
            FileType::Ico => "Imágenes",
            FileType::Heic => "Imágenes",
            FileType::Raw => "Imágenes",
            FileType::Psd => "Imágenes",
            FileType::Ai => "Imágenes",
            FileType::Svg => "Imágenes",
            FileType::Pdf => "Documentos",
            FileType::Doc => "Documentos",
            FileType::Docx => "Documentos",
            FileType::Xls => "Documentos",
            FileType::Xlsx => "Documentos",
            FileType::Ppt => "Documentos",
            FileType::Pptx => "Documentos",
            FileType::Odt => "Documentos",
            FileType::Zip => "Archivos",
            FileType::Rar => "Archivos",
            FileType::SevenZip => "Archivos",
            FileType::Tar => "Archivos",
            FileType::Gzip => "Archivos",
            FileType::Mp3 => "Audio",
            FileType::Wav => "Audio",
            FileType::Flac => "Audio",
            FileType::Aac => "Audio",
            FileType::Ogg => "Audio",
            FileType::Wma => "Audio",
            FileType::Mp4 => "Video",
            FileType::Avi => "Video",
            FileType::MkV => "Video",
            FileType::Mov => "Video",
            FileType::Wmv => "Video",
            FileType::WebM => "Video",
            FileType::Flv => "Video",
            FileType::Exe => "Ejecutables",
            FileType::Dll => "Ejecutables",
            FileType::Msi => "Ejecutables",
            FileType::Apk => "Ejecutables",
            FileType::Dex => "Ejecutables",
            FileType::Db => "Documentos",
            FileType::Xml => "Documentos",
            FileType::ThreeGp => "Video",
            FileType::Text => "Documentos",
            FileType::AndroidFile => "Otros",
            FileType::Unknown => "Otros",
        }
    }

}

/// Abstract view of a [`FileSignature`].
pub struct SignatureSpec {
    pub file_type: FileType,
    pub magic: Seq<u8>,
    pub offset: nat,
    pub min_size: nat,
    pub max_size: Option<u64>,
}

/// A known file signature: `magic_bytes` found at `offset` identify `file_type`.
pub struct FileSignature {
    pub file_type: FileType,
    pub magic_bytes: Vec<u8>,
    pub offset: usize,
    pub min_size: usize,
    pub max_size: Option<u64>,
}

impl View for FileSignature {
    type V = SignatureSpec;

    open spec fn view(&self) -> SignatureSpec {
        SignatureSpec {
            file_type: self.file_type,
            magic: self.magic_bytes@,
            offset: self.offset as nat,
            min_size: self.min_size as nat,
            max_size: self.max_size,
        }
    }
}

/// The signature's magic bytes occur in `data` at the signature's offset.
pub open spec fn signature_matches(s: SignatureSpec, data: Seq<u8>) -> bool {
    bytes_at(data, s.offset as int, s.magic)
}

/// JPEG end-of-image marker `FF D9` at index `i`.
pub open spec fn jpeg_eoi_at(d: Seq<u8>) -> spec_fn(int) -> bool {
    |i: int| d[i] == 0xFF && d[i + 1] == 0xD9
}

/// PNG `IEND` chunk type followed by its CRC `AE 42 60 82` at index `i`.
pub open spec fn png_iend_at(d: Seq<u8>) -> spec_fn(int) -> bool {
    |i: int|
        d[i] == 0x49 && d[i + 1] == 0x45 && d[i + 2] == 0x4E && d[i + 3] == 0x44 && d[i + 4]
            == 0xAE && d[i + 5] == 0x42 && d[i + 6] == 0x60 && d[i + 7] == 0x82
}

/// GIF trailer `00 3B` at index `i`.
pub open spec fn gif_trailer_at(d: Seq<u8>) -> spec_fn(int) -> bool {
    |i: int| d[i] == 0x00 && d[i + 1] == 0x3B
}

/// PDF end marker `%%EOF` at index `i`.
pub open spec fn pdf_eof_at(d: Seq<u8>) -> spec_fn(int) -> bool {
    |i: int|
        d[i] == 0x25 && d[i + 1] == 0x25 && d[i + 2] == 0x45 && d[i + 3] == 0x4F && d[i + 4]
            == 0x46
}

/// Total size of a ZIP archive whose end-of-central-directory record starts at `i`:
/// central directory offset + its size + the 22-byte record + the comment.
pub open spec fn zip_total_at(d: Seq<u8>, i: int) -> int {
    le_u32(d, i + 16) + le_u32(d, i + 12) + 22 + le_u16(d, i + 20)
}

/// A ZIP end-of-central-directory record `PK 05 06` at `i`, with a plausible total size.
pub open spec fn zip_eocd_at(d: Seq<u8>) -> spec_fn(int) -> bool {
    |i: int|
        d[i] == 0x50 && d[i + 1] == 0x4B && d[i + 2] == 0x05 && d[i + 3] == 0x06 && 0
            < zip_total_at(d, i) < 10_000_000_000
}

/// An MPEG audio frame sync (`FF` then three high bits set) at index `i`.
pub open spec fn mp3_sync_at(d: Seq<u8>) -> spec_fn(int) -> bool {
    |i: int| d[i] == 0xFF && (d[i + 1] & 0xE0u8) == 0xE0u8
}

/// An `mdat` box type at `i` whose big-endian size (the four bytes before) is non-zero.
pub open spec fn mp4_mdat_at(d: Seq<u8>) -> spec_fn(int) -> bool {
    |i: int|
        d[i] == 0x6D && d[i + 1] == 0x64 && d[i + 2] == 0x61 && d[i + 3] == 0x74 && be_u32(
            d,
            i - 4,
        ) > 0
}

/// Size estimate from the last JPEG end marker at index 2 or later.
pub open spec fn spec_estimate_jpeg_size(d: Seq<u8>) -> Option<u64> {
    match last_match(jpeg_eoi_at(d), 2, d.len() - 1) {
        Some(i) => Some((i + 2) as u64),
        None => None,
    }
}

/// Size estimate from the last PNG `IEND` chunk at index 8 or later.
pub open spec fn spec_estimate_png_size(d: Seq<u8>) -> Option<u64> {
    match last_match(png_iend_at(d), 8, d.len() - 7) {
        Some(i) => Some((i + 8) as u64),
        None => None,
    }
}

/// Size estimate from the last GIF trailer at index 2 or later.
pub open spec fn spec_estimate_gif_size(d: Seq<u8>) -> Option<u64> {
    match last_match(gif_trailer_at(d), 2, d.len() - 1) {
        Some(i) => Some((i + 2) as u64),
        None => None,
    }
}

/// Size stored in a BMP header (offset 2, little endian), when plausible.
pub open spec fn spec_estimate_bmp_size(d: Seq<u8>) -> Option<u64> {
    if d.len() >= 14 && 100 < le_u32(d, 2) < 1_000_000_000 {
        Some(le_u32(d, 2) as u64)
    } else {
        None
    }
}

/// First index of the window, the last 2048 bytes, searched for the PDF end marker.
pub open spec fn pdf_search_start(len: int) -> int {
    if len > 2048 {
        len - 2048
    } else {
        0
    }
}

/// `len - k`, or zero when `k` exceeds `len`.
pub open spec fn sat_sub(len: int, k: int) -> int {
    if len >= k {
        len - k
    } else {
        0
    }
}

/// Size estimate from the last `%%EOF` in the final 2048 bytes (a marker
/// that ends the data counts).
pub open spec fn spec_estimate_pdf_size(d: Seq<u8>) -> Option<u64> {
    match last_match(pdf_eof_at(d), pdf_search_start(d.len() as int), sat_sub(d.len() as int, 4)) {
        Some(i) => Some((i + 5) as u64),
        None => None,
    }
}

/// Size estimate from the last plausible ZIP end-of-central-directory record
/// (a record that ends the data counts).
pub open spec fn spec_estimate_zip_size(d: Seq<u8>) -> Option<u64> {
    match last_match(zip_eocd_at(d), 0, sat_sub(d.len() as int, 21)) {
        Some(i) => Some(zip_total_at(d, i) as u64),
        None => None,
    }
}

/// Size estimate from the last MPEG frame sync at index 4 or later.
pub open spec fn spec_estimate_mp3_size(d: Seq<u8>) -> Option<u64> {
    match last_match(mp3_sync_at(d), 4, d.len() - 3) {
        Some(i) => Some((i + 1) as u64),
        None => None,
    }
}

/// Size of the last `mdat` box with a non-zero size.
pub open spec fn spec_estimate_mp4_size(d: Seq<u8>) -> Option<u64> {
    match last_match(mp4_mdat_at(d), 8, d.len() - 7) {
        Some(i) => Some(be_u32(d, i - 4) as u64),
        None => None,
    }
}

/// Inputs on which a size estimate is defined (shorter ones make the search
/// range bound underflow).
pub open spec fn estimate_size_defined(t: FileType, len: int) -> bool {
    match t {
        FileType::Jpeg | FileType::Gif => len >= 1,
        FileType::Png | FileType::Mp4 => len >= 7,
        FileType::Mp3 => len >= 3,
        _ => true,
    }
}

/// The size estimate of a file of type `t` whose data starts with `d`.
pub open spec fn spec_estimate_size(t: FileType, d: Seq<u8>) -> Option<u64> {
    match t {
        FileType::Jpeg => spec_estimate_jpeg_size(d),
        FileType::Png => spec_estimate_png_size(d),
        FileType::Gif => spec_estimate_gif_size(d),
        FileType::Bmp => spec_estimate_bmp_size(d),
        FileType::Pdf => spec_estimate_pdf_size(d),
        FileType::Zip => spec_estimate_zip_size(d),
        FileType::Mp3 => spec_estimate_mp3_size(d),
        FileType::Mp4 => spec_estimate_mp4_size(d),
        _ => None,
    }
}

impl FileSignature {
    /// Whether `data` carries this signature's magic bytes at its offset.
    pub fn matches(&self, data: &[u8]) -> (r: bool)
        ensures
            r == signature_matches(self@, data@),
    {
        bytes_at_exec(data, self.offset, self.magic_bytes.as_slice())
    }

    /// Estimates the size of the file whose data starts with `data`.
    pub fn estimate_size(&self, data: &[u8]) -> (r: Option<u64>)
        requires
            estimate_size_defined(self.file_type, data@.len() as int),
        ensures
            r == spec_estimate_size(self.file_type, data@),
    {
        match self.file_type {
            FileType::Jpeg => estimate_jpeg_size(data),
            FileType::Png => estimate_png_size(data),
            FileType::Gif => estimate_gif_size(data),
            FileType::Bmp => estimate_bmp_size(data),
            FileType::Pdf => estimate_pdf_size(data),
            FileType::Zip => estimate_zip_size(data),
            FileType::Mp3 => estimate_mp3_size(data),
            FileType::Mp4 => estimate_mp4_size(data),
            _ => None,
        }
    }

    /// A copy of this signature.
    pub fn duplicate(&self) -> (r: FileSignature)
        ensures
            r@ == self@,
    {
        let mut magic: Vec<u8> = Vec::new();
        let mut i: usize = 0;
        while i < self.magic_bytes.len()
            invariant
                i <= self.magic_bytes@.len(),
                magic@ == self.magic_bytes@.subrange(0, i as int),
            decreases self.magic_bytes@.len() - i,
        {
            magic.push(self.magic_bytes[i]);
            i += 1;
            assert(magic@ =~= self.magic_bytes@.subrange(0, i as int));
        }
        assert(magic@ =~= self.magic_bytes@);
        FileSignature {
            file_type: self.file_type,
            magic_bytes: magic,
            offset: self.offset,
            min_size: self.min_size,
            max_size: self.max_size,
        }
    }
}

fn estimate_jpeg_size(data: &[u8]) -> (r: Option<u64>)
    requires
        data@.len() >= 1,
    ensures
        r == spec_estimate_jpeg_size(data@),
{
    let hi = data.len() - 1;
    let mut i = hi;
    while i > 2
        invariant
            i <= hi,
            hi == data@.len() - 1,
            last_match(jpeg_eoi_at(data@), 2, hi as int) == last_match(
                jpeg_eoi_at(data@),
                2,
                i as int,
            ),
        decreases i,
    {
        i -= 1;
        if data[i] == 0xFF && data[i + 1] == 0xD9 {
            return Some((i + 2) as u64);
        }
    }
    None
}

fn estimate_png_size(data: &[u8]) -> (r: Option<u64>)
    requires
        data@.len() >= 7,
    ensures
        r == spec_estimate_png_size(data@),
{
    let hi = data.len() - 7;
    let mut i = hi;
    while i > 8
        invariant
            i <= hi,
            hi == data@.len() - 7,
            last_match(png_iend_at(data@), 8, hi as int) == last_match(
                png_iend_at(data@),
                8,
                i as int,
            ),
        decreases i,
    {
        i -= 1;
        if data[i] == 0x49 && data[i + 1] == 0x45 && data[i + 2] == 0x4E && data[i + 3] == 0x44
            && data[i + 4] == 0xAE && data[i + 5] == 0x42 && data[i + 6] == 0x60 && data[i + 7]
            == 0x82 {
            return Some((i + 8) as u64);
        }
    }
    None
}

fn estimate_gif_size(data: &[u8]) -> (r: Option<u64>)
    requires
        data@.len() >= 1,
    ensures
        r == spec_estimate_gif_size(data@),
{
    let hi = data.len() - 1;
    let mut i = hi;
    while i > 2
        invariant
            i <= hi,
            hi == data@.len() - 1,
            last_match(gif_trailer_at(data@), 2, hi as int) == last_match(
                gif_trailer_at(data@),
                2,
                i as int,
            ),
        decreases i,
    {
        i -= 1;
        if data[i] == 0x00 && data[i + 1] == 0x3B {
            return Some((i + 2) as u64);
        }
    }
    None
}

fn estimate_bmp_size(data: &[u8]) -> (r: Option<u64>)
    ensures
        r == spec_estimate_bmp_size(data@),
{
    if data.len() >= 14 {
        let size = read_le_u32(data, 2);
        if size > 100 && size < 1_000_000_000 {
            return Some(size);
        }
    }
    None
}

fn estimate_pdf_size(data: &[u8]) -> (r: Option<u64>)
    ensures
        r == spec_estimate_pdf_size(data@),
{
    let len = data.len();
    let start = if len > 2048 {
        len - 2048
    } else {
        0
    };
    let hi = if len >= 4 {
        len - 4
    } else {
        0
    };
    let mut i = hi;
    while i > start
        invariant
            i <= hi,
            hi == sat_sub(data@.len() as int, 4),
            start == pdf_search_start(data@.len() as int),
            last_match(pdf_eof_at(data@), start as int, hi as int) == last_match(
                pdf_eof_at(data@),
                start as int,
                i as int,
            ),
        decreases i,
    {
        i -= 1;
        if data[i] == 0x25 && data[i + 1] == 0x25 && data[i + 2] == 0x45 && data[i + 3] == 0x4F
            && data[i + 4] == 0x46 {
            return Some((i + 5) as u64);
        }
    }
    None
}

fn estimate_zip_size(data: &[u8]) -> (r: Option<u64>)
    ensures
        r == spec_estimate_zip_size(data@),
{
    let len = data.len();
    let hi = if len >= 21 {
        len - 21
    } else {
        0
    };
    let mut i = hi;
    while i > 0
        invariant
            i <= hi,
            hi == sat_sub(data@.len() as int, 21),
            last_match(zip_eocd_at(data@), 0, hi as int) == last_match(
                zip_eocd_at(data@),
                0,
                i as int,
            ),
        decreases i,
    {
        i -= 1;
        if data[i] == 0x50 && data[i + 1] == 0x4B && data[i + 2] == 0x05 && data[i + 3] == 0x06 {
            let cd_size = read_le_u32(data, i + 12);
            let cd_offset = read_le_u32(data, i + 16);
            let comment_len = read_le_u16(data, i + 20);
            let total_size = cd_offset + cd_size + 22 + comment_len;
            if total_size > 0 && total_size < 10_000_000_000 {
                return Some(total_size);
            }
        }
    }
    None
}

fn estimate_mp3_size(data: &[u8]) -> (r: Option<u64>)
    requires
        data@.len() >= 3,
    ensures
        r == spec_estimate_mp3_size(data@),
{
    let hi = data.len() - 3;
    let mut i = hi;
    while i > 4
        invariant
            i <= hi,
            hi == data@.len() - 3,
            last_match(mp3_sync_at(data@), 4, hi as int) == last_match(
                mp3_sync_at(data@),
                4,
                i as int,
            ),
        decreases i,
    {
        i -= 1;
        if data[i] == 0xFF && (data[i + 1] & 0xE0) == 0xE0 {
            return Some((i + 1) as u64);
        }
    }
    None
}

fn estimate_mp4_size(data: &[u8]) -> (r: Option<u64>)
    requires
        data@.len() >= 7,
    ensures
        r == spec_estimate_mp4_size(data@),
{
    let hi = data.len() - 7;
    let mut i = hi;
    while i > 8
        invariant
            i <= hi,
            hi == data@.len() - 7,
            last_match(mp4_mdat_at(data@), 8, hi as int) == last_match(
                mp4_mdat_at(data@),
                8,
                i as int,
            ),
        decreases i,
    {
        i -= 1;
        if data[i] == 0x6D && data[i + 1] == 0x64 && data[i + 2] == 0x61 && data[i + 3] == 0x74 {
            let box_size = read_be_u32(data, i - 4);
            if box_size > 0 {
                return Some(box_size);
            }
        }
    }
    None
}

/// The `i`-th signature of the database.
pub open spec fn spec_signature(i: int) -> SignatureSpec {
    if i == 0 {
        SignatureSpec { file_type: FileType::Jpeg, magic: seq![0xFFu8, 0xD8u8, 0xFFu8], offset: 0, min_size: 100, max_size: Some(500000000u64) }
    } else if i == 1 {
        SignatureSpec { file_type: FileType::Png, magic: seq![0x89u8, 0x50u8, 0x4Eu8, 0x47u8, 0x0Du8, 0x0Au8, 0x1Au8, 0x0Au8], offset: 0, min_size: 100, max_size: Some(500000000u64) }
    } else if i == 2 {
        SignatureSpec { file_type: FileType::Gif, magic: seq![0x47u8, 0x49u8, 0x46u8, 0x38u8, 0x39u8, 0x61u8], offset: 0, min_size: 100, max_size: Some(100000000u64) }
    } else if i == 3 {
        SignatureSpec { file_type: FileType::Gif, magic: seq![0x47u8, 0x49u8, 0x46u8, 0x38u8, 0x37u8, 0x61u8], offset: 0, min_size: 100, max_size: Some(100000000u64) }
    } else if i == 4 {
        SignatureSpec { file_type: FileType::Bmp, magic: seq![0x42u8, 0x4Du8], offset: 0, min_size: 100, max_size: Some(1000000000u64) }
    } else if i == 5 {
        SignatureSpec { file_type: FileType::Tiff, magic: seq![0x49u8, 0x49u8, 0x2Au8, 0x00u8], offset: 0, min_size: 100, max_size: Some(500000000u64) }
    } else if i == 6 {
        SignatureSpec { file_type: FileType::Tiff, magic: seq![0x4Du8, 0x4Du8, 0x00u8, 0x2Au8], offset: 0, min_size: 100, max_size: Some(500000000u64) }
    } else if i == 7 {
        SignatureSpec { file_type: FileType::Webp, magic: seq![0x52u8, 0x49u8, 0x46u8, 0x46u8], offset: 0, min_size: 100, max_size: Some(500000000u64) }
    } else if i == 8 {
        SignatureSpec { file_type: FileType::Ico, magic: seq![0x00u8, 0x00u8, 0x01u8, 0x00u8], offset: 0, min_size: 50, max_size: Some(10000000u64) }
    } else if i == 9 {
        SignatureSpec { file_type: FileType::Pdf, magic: seq![0x25u8, 0x50u8, 0x44u8, 0x46u8], offset: 0, min_size: 100, max_size: Some(1000000000u64) }
    } else if i == 10 {
        SignatureSpec { file_type: FileType::Docx, magic: seq![0x50u8, 0x4Bu8, 0x03u8, 0x04u8], offset: 0, min_size: 100, max_size: Some(1000000000u64) }
    } else if i == 11 {
        SignatureSpec { file_type: FileType::Xlsx, magic: seq![0x50u8, 0x4Bu8, 0x03u8, 0x04u8], offset: 0, min_size: 100, max_size: Some(1000000000u64) }
    } else if i == 12 {
        SignatureSpec { file_type: FileType::Pptx, magic: seq![0x50u8, 0x4Bu8, 0x03u8, 0x04u8], offset: 0, min_size: 100, max_size: Some(1000000000u64) }
    } else if i == 13 {
        SignatureSpec { file_type: FileType::Zip, magic: seq![0x50u8, 0x4Bu8, 0x03u8, 0x04u8], offset: 0, min_size: 100, max_size: Some(10000000000u64) }
    } else if i == 14 {
        SignatureSpec { file_type: FileType::Zip, magic: seq![0x50u8, 0x4Bu8, 0x05u8, 0x06u8], offset: 0, min_size: 100, max_size: Some(10000000000u64) }
    } else if i == 15 {
        SignatureSpec { file_type: FileType::Rar, magic: seq![0x52u8, 0x61u8, 0x72u8, 0x21u8, 0x1Au8, 0x07u8], offset: 0, min_size: 100, max_size: Some(10000000000u64) }
    } else if i == 16 {
        SignatureSpec { file_type: FileType::Rar, magic: seq![0x52u8, 0x61u8, 0x72u8, 0x21u8, 0x1Au8, 0x07u8, 0x00u8], offset: 0, min_size: 100, max_size: Some(10000000000u64) }
    } else if i == 17 {
        SignatureSpec { file_type: FileType::SevenZip, magic: seq![0x37u8, 0x7Au8, 0xBCu8, 0xAFu8, 0x27u8, 0x1Cu8], offset: 0, min_size: 100, max_size: Some(10000000000u64) }
    } else if i == 18 {
        SignatureSpec { file_type: FileType::Tar, magic: seq![0x75u8, 0x73u8, 0x74u8, 0x61u8, 0x72u8], offset: 257, min_size: 1024, max_size: Some(10000000000u64) }
    } else if i == 19 {
        SignatureSpec { file_type: FileType::Gzip, magic: seq![0x1Fu8, 0x8Bu8], offset: 0, min_size: 100, max_size: Some(10000000000u64) }
    } else if i == 20 {
        SignatureSpec { file_type: FileType::Mp3, magic: seq![0xFFu8, 0xFBu8], offset: 0, min_size: 100, max_size: Some(500000000u64) }
    } else if i == 21 {
        SignatureSpec { file_type: FileType::Mp3, magic: seq![0xFFu8, 0xF3u8], offset: 0, min_size: 100, max_size: Some(500000000u64) }
    } else if i == 22 {
        SignatureSpec { file_type: FileType::Mp3, magic: seq![0xFFu8, 0xF2u8], offset: 0, min_size: 100, max_size: Some(500000000u64) }
    } else if i == 23 {
        SignatureSpec { file_type: FileType::Wav, magic: seq![0x52u8, 0x49u8, 0x46u8, 0x46u8], offset: 0, min_size: 100, max_size: Some(2000000000u64) }
    } else if i == 24 {
        SignatureSpec { file_type: FileType::Flac, magic: seq![0x66u8, 0x4Cu8, 0x61u8, 0x43u8], offset: 0, min_size: 100, max_size: Some(2000000000u64) }
    } else if i == 25 {
        SignatureSpec { file_type: FileType::Ogg, magic: seq![0x4Fu8, 0x67u8, 0x67u8, 0x53u8], offset: 0, min_size: 100, max_size: Some(2000000000u64) }
    } else if i == 26 {
        SignatureSpec { file_type: FileType::Mp4, magic: seq![0x00u8, 0x00u8, 0x00u8, 0x1Cu8, 0x66u8, 0x74u8, 0x79u8, 0x70u8], offset: 4, min_size: 100, max_size: Some(50000000000u64) }
    } else if i == 27 {
        SignatureSpec { file_type: FileType::Mp4, magic: seq![0x00u8, 0x00u8, 0x00u8, 0x18u8, 0x66u8, 0x74u8, 0x79u8, 0x70u8], offset: 4, min_size: 100, max_size: Some(50000000000u64) }
    } else if i == 28 {
        SignatureSpec { file_type: FileType::Mp4, magic: seq![0x00u8, 0x00u8, 0x00u8, 0x14u8, 0x66u8, 0x74u8, 0x79u8, 0x70u8], offset: 4, min_size: 100, max_size: Some(50000000000u64) }
    } else if i == 29 {
        SignatureSpec { file_type: FileType::Avi, magic: seq![0x52u8, 0x49u8, 0x46u8, 0x46u8], offset: 0, min_size: 100, max_size: Some(50000000000u64) }
    } else if i == 30 {
        SignatureSpec { file_type: FileType::MkV, magic: seq![0x1Au8, 0x45u8, 0xDFu8, 0xA3u8], offset: 0, min_size: 100, max_size: Some(50000000000u64) }
    } else if i == 31 {
        SignatureSpec { file_type: FileType::Mov, magic: seq![0x00u8, 0x00u8, 0x00u8, 0x14u8, 0x66u8, 0x74u8, 0x79u8, 0x70u8], offset: 4, min_size: 100, max_size: Some(50000000000u64) }
    } else if i == 32 {
        SignatureSpec { file_type: FileType::Mov, magic: seq![0x00u8, 0x00u8, 0x00u8, 0x18u8, 0x66u8, 0x74u8, 0x79u8, 0x70u8], offset: 4, min_size: 100, max_size: Some(50000000000u64) }
    } else if i == 33 {
        SignatureSpec { file_type: FileType::Wmv, magic: seq![0x30u8, 0x26u8, 0xB2u8, 0x75u8], offset: 0, min_size: 100, max_size: Some(50000000000u64) }
    } else if i == 34 {
        SignatureSpec { file_type: FileType::WebM, magic: seq![0x1Au8, 0x45u8, 0xDFu8, 0xA3u8], offset: 0, min_size: 100, max_size: Some(50000000000u64) }
    } else if i == 35 {
        SignatureSpec { file_type: FileType::Exe, magic: seq![0x4Du8, 0x5Au8], offset: 0, min_size: 100, max_size: Some(2000000000u64) }
    } else if i == 36 {
        SignatureSpec { file_type: FileType::Dll, magic: seq![0x4Du8, 0x5Au8], offset: 0, min_size: 100, max_size: Some(2000000000u64) }
    } else if i == 37 {
        SignatureSpec { file_type: FileType::Msi, magic: seq![0xD0u8, 0xCFu8, 0x11u8, 0xE0u8, 0xA1u8, 0xB1u8, 0x1Au8, 0xE1u8], offset: 0, min_size: 100, max_size: Some(2000000000u64) }
    } else if i == 38 {
        SignatureSpec { file_type: FileType::Flv, magic: seq![0x46u8, 0x4Cu8, 0x56u8], offset: 0, min_size: 100, max_size: Some(10000000000u64) }
    } else if i == 39 {
        SignatureSpec { file_type: FileType::Wma, magic: seq![0x30u8, 0x26u8, 0xB2u8, 0x75u8], offset: 0, min_size: 100, max_size: Some(1000000000u64) }
    } else if i == 40 {
        SignatureSpec { file_type: FileType::Raw, magic: seq![0x49u8, 0x49u8], offset: 0, min_size: 100, max_size: Some(500000000u64) }
    } else {
        SignatureSpec { file_type: FileType::Raw, magic: seq![0x4Du8, 0x4Du8], offset: 0, min_size: 100, max_size: Some(500000000u64) }
    }
}

/// Number of signatures in the database.
pub open spec fn signature_count() -> nat {
    42
}

/// The signature database, in the order in which signatures are tried.
pub open spec fn spec_signature_database() -> Seq<SignatureSpec> {
    Seq::new(signature_count(), |i: int| spec_signature(i))
}

fn make_signature(
    file_type: FileType,
    magic_bytes: Vec<u8>,
    offset: usize,
    min_size: usize,
    max_size: Option<u64>,
) -> (s: FileSignature)
    ensures
        s.file_type == file_type,
        s.magic_bytes@ == magic_bytes@,
        s.offset == offset,
        s.min_size == min_size,
        s.max_size == max_size,
{
    FileSignature { file_type, magic_bytes, offset, min_size, max_size }
}

/// The `i`-th signature of the database.
fn signature_at(i: usize) -> (s: FileSignature)
    requires
        i < signature_count(),
    ensures
        s@ == spec_signature(i as int),
{
    let s = if i == 0 {
        make_signature(FileType::Jpeg, vec![0xFFu8, 0xD8u8, 0xFFu8], 0, 100, Some(500000000))
    } else if i == 1 {
        make_signature(FileType::Png, vec![0x89u8, 0x50u8, 0x4Eu8, 0x47u8, 0x0Du8, 0x0Au8, 0x1Au8, 0x0Au8], 0, 100, Some(500000000))
    } else if i == 2 {
        make_signature(FileType::Gif, vec![0x47u8, 0x49u8, 0x46u8, 0x38u8, 0x39u8, 0x61u8], 0, 100, Some(100000000))
    } else if i == 3 {
        make_signature(FileType::Gif, vec![0x47u8, 0x49u8, 0x46u8, 0x38u8, 0x37u8, 0x61u8], 0, 100, Some(100000000))
    } else if i == 4 {
        make_signature(FileType::Bmp, vec![0x42u8, 0x4Du8], 0, 100, Some(1000000000))
    } else if i == 5 {
        make_signature(FileType::Tiff, vec![0x49u8, 0x49u8, 0x2Au8, 0x00u8], 0, 100, Some(500000000))
    } else if i == 6 {
        make_signature(FileType::Tiff, vec![0x4Du8, 0x4Du8, 0x00u8, 0x2Au8], 0, 100, Some(500000000))
    } else if i == 7 {
        make_signature(FileType::Webp, vec![0x52u8, 0x49u8, 0x46u8, 0x46u8], 0, 100, Some(500000000))
    } else if i == 8 {
        make_signature(FileType::Ico, vec![0x00u8, 0x00u8, 0x01u8, 0x00u8], 0, 50, Some(10000000))
    } else if i == 9 {
        make_signature(FileType::Pdf, vec![0x25u8, 0x50u8, 0x44u8, 0x46u8], 0, 100, Some(1000000000))
    } else if i == 10 {
        make_signature(FileType::Docx, vec![0x50u8, 0x4Bu8, 0x03u8, 0x04u8], 0, 100, Some(1000000000))
    } else if i == 11 {
        make_signature(FileType::Xlsx, vec![0x50u8, 0x4Bu8, 0x03u8, 0x04u8], 0, 100, Some(1000000000))
    } else if i == 12 {
        make_signature(FileType::Pptx, vec![0x50u8, 0x4Bu8, 0x03u8, 0x04u8], 0, 100, Some(1000000000))
    } else if i == 13 {
        make_signature(FileType::Zip, vec![0x50u8, 0x4Bu8, 0x03u8, 0x04u8], 0, 100, Some(10000000000))
    } else if i == 14 {
        make_signature(FileType::Zip, vec![0x50u8, 0x4Bu8, 0x05u8, 0x06u8], 0, 100, Some(10000000000))
    } else if i == 15 {
        make_signature(FileType::Rar, vec![0x52u8, 0x61u8, 0x72u8, 0x21u8, 0x1Au8, 0x07u8], 0, 100, Some(10000000000))
    } else if i == 16 {
        make_signature(FileType::Rar, vec![0x52u8, 0x61u8, 0x72u8, 0x21u8, 0x1Au8, 0x07u8, 0x00u8], 0, 100, Some(10000000000))
    } else if i == 17 {
        make_signature(FileType::SevenZip, vec![0x37u8, 0x7Au8, 0xBCu8, 0xAFu8, 0x27u8, 0x1Cu8], 0, 100, Some(10000000000))
    } else if i == 18 {
        make_signature(FileType::Tar, vec![0x75u8, 0x73u8, 0x74u8, 0x61u8, 0x72u8], 257, 1024, Some(10000000000))
    } else if i == 19 {
        make_signature(FileType::Gzip, vec![0x1Fu8, 0x8Bu8], 0, 100, Some(10000000000))
    } else if i == 20 {
        make_signature(FileType::Mp3, vec![0xFFu8, 0xFBu8], 0, 100, Some(500000000))
    } else if i == 21 {
        make_signature(FileType::Mp3, vec![0xFFu8, 0xF3u8], 0, 100, Some(500000000))
    } else if i == 22 {
        make_signature(FileType::Mp3, vec![0xFFu8, 0xF2u8], 0, 100, Some(500000000))
    } else if i == 23 {
        make_signature(FileType::Wav, vec![0x52u8, 0x49u8, 0x46u8, 0x46u8], 0, 100, Some(2000000000))
    } else if i == 24 {
        make_signature(FileType::Flac, vec![0x66u8, 0x4Cu8, 0x61u8, 0x43u8], 0, 100, Some(2000000000))
    } else if i == 25 {
        make_signature(FileType::Ogg, vec![0x4Fu8, 0x67u8, 0x67u8, 0x53u8], 0, 100, Some(2000000000))
    } else if i == 26 {
        make_signature(FileType::Mp4, vec![0x00u8, 0x00u8, 0x00u8, 0x1Cu8, 0x66u8, 0x74u8, 0x79u8, 0x70u8], 4, 100, Some(50000000000))
    } else if i == 27 {
        make_signature(FileType::Mp4, vec![0x00u8, 0x00u8, 0x00u8, 0x18u8, 0x66u8, 0x74u8, 0x79u8, 0x70u8], 4, 100, Some(50000000000))
    } else if i == 28 {
        make_signature(FileType::Mp4, vec![0x00u8, 0x00u8, 0x00u8, 0x14u8, 0x66u8, 0x74u8, 0x79u8, 0x70u8], 4, 100, Some(50000000000))
    } else if i == 29 {
        make_signature(FileType::Avi, vec![0x52u8, 0x49u8, 0x46u8, 0x46u8], 0, 100, Some(50000000000))
    } else if i == 30 {
        make_signature(FileType::MkV, vec![0x1Au8, 0x45u8, 0xDFu8, 0xA3u8], 0, 100, Some(50000000000))
    } else if i == 31 {
        make_signature(FileType::Mov, vec![0x00u8, 0x00u8, 0x00u8, 0x14u8, 0x66u8, 0x74u8, 0x79u8, 0x70u8], 4, 100, Some(50000000000))
    } else if i == 32 {
        make_signature(FileType::Mov, vec![0x00u8, 0x00u8, 0x00u8, 0x18u8, 0x66u8, 0x74u8, 0x79u8, 0x70u8], 4, 100, Some(50000000000))
    } else if i == 33 {
        make_signature(FileType::Wmv, vec![0x30u8, 0x26u8, 0xB2u8, 0x75u8], 0, 100, Some(50000000000))
    } else if i == 34 {
        make_signature(FileType::WebM, vec![0x1Au8, 0x45u8, 0xDFu8, 0xA3u8], 0, 100, Some(50000000000))
    } else if i == 35 {
        make_signature(FileType::Exe, vec![0x4Du8, 0x5Au8], 0, 100, Some(2000000000))
    } else if i == 36 {
        make_signature(FileType::Dll, vec![0x4Du8, 0x5Au8], 0, 100, Some(2000000000))
    } else if i == 37 {
        make_signature(FileType::Msi, vec![0xD0u8, 0xCFu8, 0x11u8, 0xE0u8, 0xA1u8, 0xB1u8, 0x1Au8, 0xE1u8], 0, 100, Some(2000000000))
    } else if i == 38 {
        make_signature(FileType::Flv, vec![0x46u8, 0x4Cu8, 0x56u8], 0, 100, Some(10000000000))
    } else if i == 39 {
        make_signature(FileType::Wma, vec![0x30u8, 0x26u8, 0xB2u8, 0x75u8], 0, 100, Some(1000000000))
    } else if i == 40 {
        make_signature(FileType::Raw, vec![0x49u8, 0x49u8], 0, 100, Some(500000000))
    } else {
        make_signature(FileType::Raw, vec![0x4Du8, 0x4Du8], 0, 100, Some(500000000))
    };
    assert(s@.magic =~= spec_signature(i as int).magic);
    s
}

/// The signature at position `i` of the database.
pub fn signature_at_index(i: usize) -> (s: FileSignature)
    requires
        i < signature_count(),
    ensures
        s@ == spec_signature(i as int),
{
    signature_at(i)
}

/// Builds the signature database.
pub fn signature_database() -> (db: Vec<FileSignature>)
    ensures
        db@.len() == spec_signature_database().len(),
        forall|i: int| 0 <= i < db@.len() ==> #[trigger] db@[i]@ == spec_signature_database()[i],
{
    let mut db: Vec<FileSignature> = Vec::new();
    let mut i: usize = 0;
    while i < 42
        invariant
            i <= signature_count(),
            db@.len() == i,
            forall|k: int| 0 <= k < i ==> #[trigger] db@[k]@ == spec_signature_database()[k],
        decreases signature_count() - i,
    {
        db.push(signature_at(i));
        i += 1;
    }
    db
}

/// Index `i` of the database names a signature that matches `d`.
pub open spec fn database_match(d: Seq<u8>) -> spec_fn(int) -> bool {
    |i: int| signature_matches(spec_signature_database()[i], d)
}

/// Index of the first signature of the database that matches `d`.
pub open spec fn spec_detect_index(d: Seq<u8>) -> Option<int> {
    first_match(database_match(d), 0, spec_signature_database().len() as int)
}

/// Finds the first signature of the database whose magic bytes `data` carries.
pub fn detect_file_type(data: &[u8]) -> (r: Option<FileSignature>)
    ensures
        match spec_detect_index(data@) {
            Some(i) => r is Some && r->0@ == spec_signature_database()[i],
            None => r is None,
        },
{
    let mut db = signature_database();
    let n = db.len();
    let mut i: usize = 0;
    while i < n
        invariant
            n == db@.len(),
            n == spec_signature_database().len(),
            i <= n,
            forall|k: int| 0 <= k < n ==> #[trigger] db@[k]@ == spec_signature_database()[k],
            spec_detect_index(data@) == first_match(database_match(data@), i as int, n as int),
        decreases n - i,
    {
        if db[i].matches(data) {
            let s = db.remove(i);
            return Some(s);
        }
        i += 1;
    }
    None
}

/// The category names offered for filtering, in display order.
pub open spec fn spec_categories() -> Seq<Seq<char>> {
    seq!["Imágenes"@, "Documentos"@, "Archivos"@, "Audio"@, "Video"@, "Ejecutables"@, "Otros"@]
}

/// The category names offered for filtering, in display order.
pub fn get_categories() -> (r: Vec<&'static str>)
    ensures
        r@.len() == 7,
        forall|k: int| 0 <= k < 7 ==> #[trigger] r@[k]@ == spec_categories()[k],
{
    let r = vec!["Imágenes", "Documentos", "Archivos", "Audio", "Video", "Ejecutables", "Otros"];
    assert forall|k: int| 0 <= k < 7 implies #[trigger] r@[k]@ == spec_categories()[k] by {
        if k == 0 {} else if k == 1 {} else if k == 2 {} else if k == 3 {} else if k == 4 {} else if k == 5 {} else {}
    }
    r
}

} // verus!
verus! {

/// An MPEG frame-sync magic: `FF FB`, `FF F3` or `FF F2` at offset 0.
pub open spec fn is_mp3_magic(s: SignatureSpec) -> bool {
    s.offset == 0 && s.magic.len() == 2 && s.magic[0] == 0xFF && (s.magic[1] == 0xFB || s.magic[1]
        == 0xF3 || s.magic[1] == 0xF2)
}

/// Facts about every signature of the database.
pub proof fn lemma_signature_facts(k: int)
    requires
        0 <= k < signature_count(),
    ensures
        spec_signature(k).magic.len() > 0,
        spec_signature(k).magic.len() <= 8,
        spec_signature(k).offset <= 257,
        spec_signature(k).file_type == FileType::Mp3 ==> is_mp3_magic(spec_signature(k)),
        spec_signature(k).file_type != FileType::Mp3 ==> estimate_size_defined(
            spec_signature(k).file_type,
            (spec_signature(k).offset + spec_signature(k).magic.len()) as int,
        ),
{
}

} // verus!

verus! {

/// Size estimates of short data stay below 2^34 bytes.
pub proof fn lemma_estimate_size_bound(t: FileType, d: Seq<u8>)
    requires
        estimate_size_defined(t, d.len() as int),
        d.len() < 0x1_0000_0000,
    ensures
        spec_estimate_size(t, d) matches Some(z) ==> z < 0x4_0000_0000,
{
    crate::bytes::lemma_last_match(jpeg_eoi_at(d), 2, d.len() - 1);
    crate::bytes::lemma_last_match(png_iend_at(d), 8, d.len() - 7);
    crate::bytes::lemma_last_match(gif_trailer_at(d), 2, d.len() - 1);
    crate::bytes::lemma_last_match(pdf_eof_at(d), pdf_search_start(d.len() as int), sat_sub(d.len() as int, 4));
    crate::bytes::lemma_last_match(zip_eocd_at(d), 0, sat_sub(d.len() as int, 21));
    crate::bytes::lemma_last_match(mp3_sync_at(d), 4, d.len() - 3);
    crate::bytes::lemma_last_match(mp4_mdat_at(d), 8, d.len() - 7);
    match spec_estimate_size(t, d) {
        Some(z) => {
            if t == FileType::Mp4 {
                let i = last_match(mp4_mdat_at(d), 8, d.len() - 7)->0;
                assert(be_u32(d, i - 4) < 0x1_0000_0000);
            }
        },
        None => {},
    }
}

} // verus!


verus! {

/// Code of the character at `i` of `e` (zero past its end).
pub open spec fn char_code(e: Seq<char>, i: int) -> int {
    if 0 <= i < e.len() {
        e[i] as int
    } else {
        0
    }
}

/// A number that tells apart short ASCII texts: the length and the first
/// four character codes.
pub open spec fn ext_key(e: Seq<char>) -> int {
    e.len() + 8 * (char_code(e, 0) + 128 * (char_code(e, 1) + 128 * (char_code(e, 2) + 128 * char_code(e, 3))))
}

/// The key of each file type's extension.
pub open spec fn extension_key(t: FileType) -> int {
    match t {
        FileType::Jpeg => 13615955,
        FileType::Png => 13613955,
        FileType::Gif => 13477691,
        FileType::Bmp => 14792467,
        FileType::Tiff => 1724753828,
        FileType::Webp => 1891997628,
        FileType::Ico => 14651211,
        FileType::Heic => 1674811204,
        FileType::Raw => 15697811,
        FileType::Psd => 13225859,
        FileType::Ai => 108298,
        FileType::Svg => 13622171,
        FileType::Pdf => 13472643,
        FileType::Doc => 13090595,
        FileType::Docx => 2026356516,
        FileType::Xls => 15184835,
        FileType::Xlsx => 2028450756,
        FileType::Ppt => 15319939,
        FileType::Pptx => 2028585860,
        FileType::Odt => 15307643,
        FileType::Zip => 14788563,
        FileType::Rar => 15042451,
        FileType::SevenZip => 125370,
        FileType::Tar => 15042467,
        FileType::Gzip => 125754,
        FileType::Mp3 => 6800235,
        FileType::Wav => 15566779,
        FileType::Flac => 1673769780,
        FileType::Aac => 13076235,
        FileType::Ogg => 13606779,
        FileType::Wma => 12826555,
        FileType::Mp4 => 6931307,
        FileType::Avi => 13884171,
        FileType::MkV => 15576939,
        FileType::Mov => 15581035,
        FileType::Wmv => 15579067,
        FileType::WebM => 1841665980,
        FileType::Flv => 15577907,
        FileType::Exe => 13361963,
        FileType::Dll => 14267171,
        FileType::Msi => 13881195,
        FileType::Apk => 14140171,
        FileType::Dex => 15832867,
        FileType::Db => 101154,
        FileType::Xml => 14268355,
        FileType::ThreeGp => 14785947,
        FileType::Text => 15328163,
        FileType::AndroidFile => 14526227,
        FileType::Unknown => 14526227,
    }
}

/// The file type whose extension has key `k` (the unknown type for `bin`).
pub open spec fn type_of_key(k: int) -> FileType {
    if k == 13615955 {
        FileType::Jpeg
    } else if k == 13613955 {
        FileType::Png
    } else if k == 13477691 {
        FileType::Gif
    } else if k == 14792467 {
        FileType::Bmp
    } else if k == 1724753828 {
        FileType::Tiff
    } else if k == 1891997628 {
        FileType::Webp
    } else if k == 14651211 {
        FileType::Ico
    } else if k == 1674811204 {
        FileType::Heic
    } else if k == 15697811 {
        FileType::Raw
    } else if k == 13225859 {
        FileType::Psd
    } else if k == 108298 {
        FileType::Ai
    } else if k == 13622171 {
        FileType::Svg
    } else if k == 13472643 {
        FileType::Pdf
    } else if k == 13090595 {
        FileType::Doc
    } else if k == 2026356516 {
        FileType::Docx
    } else if k == 15184835 {
        FileType::Xls
    } else if k == 2028450756 {
        FileType::Xlsx
    } else if k == 15319939 {
        FileType::Ppt
    } else if k == 2028585860 {
        FileType::Pptx
    } else if k == 15307643 {
        FileType::Odt
    } else if k == 14788563 {
        FileType::Zip
    } else if k == 15042451 {
        FileType::Rar
    } else if k == 125370 {
        FileType::SevenZip
    } else if k == 15042467 {
        FileType::Tar
    } else if k == 125754 {
        FileType::Gzip
    } else if k == 6800235 {
        FileType::Mp3
    } else if k == 15566779 {
        FileType::Wav
    } else if k == 1673769780 {
        FileType::Flac
    } else if k == 13076235 {
        FileType::Aac
    } else if k == 13606779 {
        FileType::Ogg
    } else if k == 12826555 {
        FileType::Wma
    } else if k == 6931307 {
        FileType::Mp4
    } else if k == 13884171 {
        FileType::Avi
    } else if k == 15576939 {
        FileType::MkV
    } else if k == 15581035 {
        FileType::Mov
    } else if k == 15579067 {
        FileType::Wmv
    } else if k == 1841665980 {
        FileType::WebM
    } else if k == 15577907 {
        FileType::Flv
    } else if k == 13361963 {
        FileType::Exe
    } else if k == 14267171 {
        FileType::Dll
    } else if k == 13881195 {
        FileType::Msi
    } else if k == 14140171 {
        FileType::Apk
    } else if k == 15832867 {
        FileType::Dex
    } else if k == 101154 {
        FileType::Db
    } else if k == 14268355 {
        FileType::Xml
    } else if k == 14785947 {
        FileType::ThreeGp
    } else if k == 15328163 {
        FileType::Text
    } else if k == 14526227 {
        FileType::Unknown
    } else {
        FileType::Unknown
    }
}

/// A lower-case ASCII letter or digit.
pub open spec fn is_lower_alnum(c: char) -> bool {
    (97 <= (c as u32) && (c as u32) <= 122) || (48 <= (c as u32) && (c as u32) <= 57)
}

/// Facts about the extension of `t`: its key, the type the key leads back
/// to, and its characters.
proof fn lemma_extension_facts(t: FileType)
    ensures
        ext_key(spec_extension(t)) == extension_key(t),
        t != FileType::AndroidFile ==> type_of_key(extension_key(t)) == t,
        t == FileType::AndroidFile ==> type_of_key(extension_key(t)) == FileType::Unknown,
        spec_extension(t).len() > 0,
        forall|i: int| 0 <= i < spec_extension(t).len() ==> is_lower_alnum(#[trigger] spec_extension(t)[i]),
{
    match t {
        FileType::Jpeg => {
            reveal_strlit("jpg");
            assert(is_lower_alnum(spec_extension(t)[0]));
            assert(is_lower_alnum(spec_extension(t)[1]));
            assert(is_lower_alnum(spec_extension(t)[2]));
        },
        FileType::Png => {
            reveal_strlit("png");
            assert(is_lower_alnum(spec_extension(t)[0]));
            assert(is_lower_alnum(spec_extension(t)[1]));
            assert(is_lower_alnum(spec_extension(t)[2]));
        },
        FileType::Gif => {
            reveal_strlit("gif");
            assert(is_lower_alnum(spec_extension(t)[0]));
            assert(is_lower_alnum(spec_extension(t)[1]));
            assert(is_lower_alnum(spec_extension(t)[2]));
        },
        FileType::Bmp => {
            reveal_strlit("bmp");
            assert(is_lower_alnum(spec_extension(t)[0]));
            assert(is_lower_alnum(spec_extension(t)[1]));
            assert(is_lower_alnum(spec_extension(t)[2]));
        },
        FileType::Tiff => {
            reveal_strlit("tiff");
            assert(is_lower_alnum(spec_extension(t)[0]));
            assert(is_lower_alnum(spec_extension(t)[1]));
            assert(is_lower_alnum(spec_extension(t)[2]));
            assert(is_lower_alnum(spec_extension(t)[3]));
        },
        FileType::Webp => {
            reveal_strlit("webp");
            assert(is_lower_alnum(spec_extension(t)[0]));
            assert(is_lower_alnum(spec_extension(t)[1]));
            assert(is_lower_alnum(spec_extension(t)[2]));
            assert(is_lower_alnum(spec_extension(t)[3]));
        },
        FileType::Ico => {
            reveal_strlit("ico");
            assert(is_lower_alnum(spec_extension(t)[0]));
            assert(is_lower_alnum(spec_extension(t)[1]));
            assert(is_lower_alnum(spec_extension(t)[2]));
        },
        FileType::Heic => {
            reveal_strlit("heic");
            assert(is_lower_alnum(spec_extension(t)[0]));
            assert(is_lower_alnum(spec_extension(t)[1]));
            assert(is_lower_alnum(spec_extension(t)[2]));
            assert(is_lower_alnum(spec_extension(t)[3]));
        },
        FileType::Raw => {
            reveal_strlit("raw");
            assert(is_lower_alnum(spec_extension(t)[0]));
            assert(is_lower_alnum(spec_extension(t)[1]));
            assert(is_lower_alnum(spec_extension(t)[2]));
        },
        FileType::Psd => {
            reveal_strlit("psd");
            assert(is_lower_alnum(spec_extension(t)[0]));
            assert(is_lower_alnum(spec_extension(t)[1]));
            assert(is_lower_alnum(spec_extension(t)[2]));
        },
        FileType::Ai => {
            reveal_strlit("ai");
            assert(is_lower_alnum(spec_extension(t)[0]));
            assert(is_lower_alnum(spec_extension(t)[1]));
        },
        FileType::Svg => {
            reveal_strlit("svg");
            assert(is_lower_alnum(spec_extension(t)[0]));
            assert(is_lower_alnum(spec_extension(t)[1]));
            assert(is_lower_alnum(spec_extension(t)[2]));
        },
        FileType::Pdf => {
            reveal_strlit("pdf");
            assert(is_lower_alnum(spec_extension(t)[0]));
            assert(is_lower_alnum(spec_extension(t)[1]));
            assert(is_lower_alnum(spec_extension(t)[2]));
        },
        FileType::Doc => {
            reveal_strlit("doc");
            assert(is_lower_alnum(spec_extension(t)[0]));
            assert(is_lower_alnum(spec_extension(t)[1]));
            assert(is_lower_alnum(spec_extension(t)[2]));
        },
        FileType::Docx => {
            reveal_strlit("docx");
            assert(is_lower_alnum(spec_extension(t)[0]));
            assert(is_lower_alnum(spec_extension(t)[1]));
            assert(is_lower_alnum(spec_extension(t)[2]));
            assert(is_lower_alnum(spec_extension(t)[3]));
        },
        FileType::Xls => {
            reveal_strlit("xls");
            assert(is_lower_alnum(spec_extension(t)[0]));
            assert(is_lower_alnum(spec_extension(t)[1]));
            assert(is_lower_alnum(spec_extension(t)[2]));
        },
        FileType::Xlsx => {
            reveal_strlit("xlsx");
            assert(is_lower_alnum(spec_extension(t)[0]));
            assert(is_lower_alnum(spec_extension(t)[1]));
            assert(is_lower_alnum(spec_extension(t)[2]));
            assert(is_lower_alnum(spec_extension(t)[3]));
        },
        FileType::Ppt => {
            reveal_strlit("ppt");
            assert(is_lower_alnum(spec_extension(t)[0]));
            assert(is_lower_alnum(spec_extension(t)[1]));
            assert(is_lower_alnum(spec_extension(t)[2]));
        },
        FileType::Pptx => {
            reveal_strlit("pptx");
            assert(is_lower_alnum(spec_extension(t)[0]));
            assert(is_lower_alnum(spec_extension(t)[1]));
            assert(is_lower_alnum(spec_extension(t)[2]));
            assert(is_lower_alnum(spec_extension(t)[3]));
        },
        FileType::Odt => {
            reveal_strlit("odt");
            assert(is_lower_alnum(spec_extension(t)[0]));
            assert(is_lower_alnum(spec_extension(t)[1]));
            assert(is_lower_alnum(spec_extension(t)[2]));
        },
        FileType::Zip => {
            reveal_strlit("zip");
            assert(is_lower_alnum(spec_extension(t)[0]));
            assert(is_lower_alnum(spec_extension(t)[1]));
            assert(is_lower_alnum(spec_extension(t)[2]));
        },
        FileType::Rar => {
            reveal_strlit("rar");
            assert(is_lower_alnum(spec_extension(t)[0]));
            assert(is_lower_alnum(spec_extension(t)[1]));
            assert(is_lower_alnum(spec_extension(t)[2]));
        },
        FileType::SevenZip => {
            reveal_strlit("7z");
            assert(is_lower_alnum(spec_extension(t)[0]));
            assert(is_lower_alnum(spec_extension(t)[1]));
        },
        FileType::Tar => {
            reveal_strlit("tar");
            assert(is_lower_alnum(spec_extension(t)[0]));
            assert(is_lower_alnum(spec_extension(t)[1]));
            assert(is_lower_alnum(spec_extension(t)[2]));
        },
        FileType::Gzip => {
            reveal_strlit("gz");
            assert(is_lower_alnum(spec_extension(t)[0]));
            assert(is_lower_alnum(spec_extension(t)[1]));
        },
        FileType::Mp3 => {
            reveal_strlit("mp3");
            assert(is_lower_alnum(spec_extension(t)[0]));
            assert(is_lower_alnum(spec_extension(t)[1]));
            assert(is_lower_alnum(spec_extension(t)[2]));
        },
        FileType::Wav => {
            reveal_strlit("wav");
            assert(is_lower_alnum(spec_extension(t)[0]));
            assert(is_lower_alnum(spec_extension(t)[1]));
            assert(is_lower_alnum(spec_extension(t)[2]));
        },
        FileType::Flac => {
            reveal_strlit("flac");
            assert(is_lower_alnum(spec_extension(t)[0]));
            assert(is_lower_alnum(spec_extension(t)[1]));
            assert(is_lower_alnum(spec_extension(t)[2]));
            assert(is_lower_alnum(spec_extension(t)[3]));
        },
        FileType::Aac => {
            reveal_strlit("aac");
            assert(is_lower_alnum(spec_extension(t)[0]));
            assert(is_lower_alnum(spec_extension(t)[1]));
            assert(is_lower_alnum(spec_extension(t)[2]));
        },
        FileType::Ogg => {
            reveal_strlit("ogg");
            assert(is_lower_alnum(spec_extension(t)[0]));
            assert(is_lower_alnum(spec_extension(t)[1]));
            assert(is_lower_alnum(spec_extension(t)[2]));
        },
        FileType::Wma => {
            reveal_strlit("wma");
            assert(is_lower_alnum(spec_extension(t)[0]));
            assert(is_lower_alnum(spec_extension(t)[1]));
            assert(is_lower_alnum(spec_extension(t)[2]));
        },
        FileType::Mp4 => {
            reveal_strlit("mp4");
            assert(is_lower_alnum(spec_extension(t)[0]));
            assert(is_lower_alnum(spec_extension(t)[1]));
            assert(is_lower_alnum(spec_extension(t)[2]));
        },
        FileType::Avi => {
            reveal_strlit("avi");
            assert(is_lower_alnum(spec_extension(t)[0]));
            assert(is_lower_alnum(spec_extension(t)[1]));
            assert(is_lower_alnum(spec_extension(t)[2]));
        },
        FileType::MkV => {
            reveal_strlit("mkv");
            assert(is_lower_alnum(spec_extension(t)[0]));
            assert(is_lower_alnum(spec_extension(t)[1]));
            assert(is_lower_alnum(spec_extension(t)[2]));
        },
        FileType::Mov => {
            reveal_strlit("mov");
            assert(is_lower_alnum(spec_extension(t)[0]));
            assert(is_lower_alnum(spec_extension(t)[1]));
            assert(is_lower_alnum(spec_extension(t)[2]));
        },
        FileType::Wmv => {
            reveal_strlit("wmv");
            assert(is_lower_alnum(spec_extension(t)[0]));
            assert(is_lower_alnum(spec_extension(t)[1]));
            assert(is_lower_alnum(spec_extension(t)[2]));
        },
        FileType::WebM => {
            reveal_strlit("webm");
            assert(is_lower_alnum(spec_extension(t)[0]));
            assert(is_lower_alnum(spec_extension(t)[1]));
            assert(is_lower_alnum(spec_extension(t)[2]));
            assert(is_lower_alnum(spec_extension(t)[3]));
        },
        FileType::Flv => {
            reveal_strlit("flv");
            assert(is_lower_alnum(spec_extension(t)[0]));
            assert(is_lower_alnum(spec_extension(t)[1]));
            assert(is_lower_alnum(spec_extension(t)[2]));
        },
        FileType::Exe => {
            reveal_strlit("exe");
            assert(is_lower_alnum(spec_extension(t)[0]));
            assert(is_lower_alnum(spec_extension(t)[1]));
            assert(is_lower_alnum(spec_extension(t)[2]));
        },
        FileType::Dll => {
            reveal_strlit("dll");
            assert(is_lower_alnum(spec_extension(t)[0]));
            assert(is_lower_alnum(spec_extension(t)[1]));
            assert(is_lower_alnum(spec_extension(t)[2]));
        },
        FileType::Msi => {
            reveal_strlit("msi");
            assert(is_lower_alnum(spec_extension(t)[0]));
            assert(is_lower_alnum(spec_extension(t)[1]));
            assert(is_lower_alnum(spec_extension(t)[2]));
        },
        FileType::Apk => {
            reveal_strlit("apk");
            assert(is_lower_alnum(spec_extension(t)[0]));
            assert(is_lower_alnum(spec_extension(t)[1]));
            assert(is_lower_alnum(spec_extension(t)[2]));
        },
        FileType::Dex => {
            reveal_strlit("dex");
            assert(is_lower_alnum(spec_extension(t)[0]));
            assert(is_lower_alnum(spec_extension(t)[1]));
            assert(is_lower_alnum(spec_extension(t)[2]));
        },
        FileType::Db => {
            reveal_strlit("db");
            assert(is_lower_alnum(spec_extension(t)[0]));
            assert(is_lower_alnum(spec_extension(t)[1]));
        },
        FileType::Xml => {
            reveal_strlit("xml");
            assert(is_lower_alnum(spec_extension(t)[0]));
            assert(is_lower_alnum(spec_extension(t)[1]));
            assert(is_lower_alnum(spec_extension(t)[2]));
        },
        FileType::ThreeGp => {
            reveal_strlit("3gp");
            assert(is_lower_alnum(spec_extension(t)[0]));
            assert(is_lower_alnum(spec_extension(t)[1]));
            assert(is_lower_alnum(spec_extension(t)[2]));
        },
        FileType::Text => {
            reveal_strlit("txt");
            assert(is_lower_alnum(spec_extension(t)[0]));
            assert(is_lower_alnum(spec_extension(t)[1]));
            assert(is_lower_alnum(spec_extension(t)[2]));
        },
        FileType::AndroidFile => {
            reveal_strlit("bin");
            assert(is_lower_alnum(spec_extension(t)[0]));
            assert(is_lower_alnum(spec_extension(t)[1]));
            assert(is_lower_alnum(spec_extension(t)[2]));
        },
        FileType::Unknown => {
            reveal_strlit("bin");
            assert(is_lower_alnum(spec_extension(t)[0]));
            assert(is_lower_alnum(spec_extension(t)[1]));
            assert(is_lower_alnum(spec_extension(t)[2]));
        },
    }
}

/// Distinct file types have distinct extensions, except the generic
/// Android file and the unknown type, which share `bin`; every extension is
/// non-empty and made of lower-case ASCII letters and digits (so it holds
/// no dot).
pub proof fn law_extensions_distinct(t1: FileType, t2: FileType)
    ensures
        t1 != t2 && !(t1 == FileType::AndroidFile && t2 == FileType::Unknown)
            && !(t1 == FileType::Unknown && t2 == FileType::AndroidFile)
            ==> spec_extension(t1) != spec_extension(t2),
        spec_extension(t1).len() > 0,
        forall|i: int| 0 <= i < spec_extension(t1).len() ==> is_lower_alnum(#[trigger] spec_extension(t1)[i]),
{
    lemma_extension_facts(t1);
    lemma_extension_facts(t2);
}

} // verus!
