use recoverpill::names::extract_exif_metadata;
use recoverpill::names::{date_file_name, mp3_title_name, pdf_title_name};
use recoverpill::names::extract_filename_from_data;
use recoverpill::signatures::FileType;

#[test]
fn zip_local_header_name() {
    let mut data = vec![0u8; 120];
    data[0] = 0x50;
    data[1] = 0x4B;
    data[2] = 3;
    data[3] = 4;
    let name = b"report.xml";
    data[26] = name.len() as u8;
    data[30..30 + name.len()].copy_from_slice(name);
    assert_eq!(extract_filename_from_data(&data, FileType::Zip), Some("report.xml".to_string()));
    let mut nested = data.clone();
    nested[30..30 + name.len()].copy_from_slice(b"dir/a.xmlx");
    assert_eq!(extract_filename_from_data(&nested, FileType::Docx), None);
    assert_eq!(extract_filename_from_data(&data[..40], FileType::Zip), None);
}

#[test]
fn pdf_title() {
    let mut data = b"%PDF-1.4 /Title (My Report: 2024) /Author".to_vec();
    data.extend_from_slice(&[b' '; 20]);
    assert_eq!(extract_filename_from_data(&data, FileType::Pdf), Some("My_Report_2024.pdf".to_string()));
    assert_eq!(extract_filename_from_data(b"%PDF-1.4 nothing here", FileType::Pdf), None);
}

#[test]
fn jpeg_exif_date() {
    let mut data = vec![0u8; 300];
    data[40..59].copy_from_slice(b"2023:07:15 10:20:30");
    assert_eq!(extract_filename_from_data(&data, FileType::Jpeg), Some("IMG_20230715_102030.jpg".to_string()));
    assert_eq!(extract_filename_from_data(&data[..200], FileType::Jpeg), None);
}

fn id3_with_title(enc: u8, text: &[u8]) -> Vec<u8> {
    let mut frame = b"TIT2".to_vec();
    let size = (text.len() + 1) as u32;
    frame.extend_from_slice(&size.to_be_bytes());
    frame.extend_from_slice(&[0, 0, enc]);
    frame.extend_from_slice(text);
    frame.extend_from_slice(&[0u8; 4]);
    let mut data = b"ID3".to_vec();
    data.extend_from_slice(&[3, 0, 0]);
    let n = frame.len() as u32;
    data.extend_from_slice(&[((n >> 21) & 0x7F) as u8, ((n >> 14) & 0x7F) as u8, ((n >> 7) & 0x7F) as u8, (n & 0x7F) as u8]);
    data.extend_from_slice(&frame);
    data.extend_from_slice(&[0xFF, 0xFB, 0x90, 0x00]);
    data
}

#[test]
fn mp3_id3_title() {
    let data = id3_with_title(3, b"AC/DC Song\0");
    assert_eq!(extract_filename_from_data(&data, FileType::Mp3), Some("AC_DC Song.mp3".to_string()));
    let utf16: Vec<u8> = "Hi".encode_utf16().flat_map(|u| u.to_le_bytes()).collect();
    let data = id3_with_title(1, &utf16);
    assert_eq!(extract_filename_from_data(&data, FileType::Mp3), Some("Hi.mp3".to_string()));
    assert_eq!(extract_filename_from_data(&[0xFF, 0xFB, 0, 0, 0, 0, 0, 0, 0, 0, 0], FileType::Mp3), None);
}

#[test]
fn readable_text_name() {
    let mut data = b"  my notes file  ".to_vec();
    data.extend_from_slice(&[0u8; 100]);
    assert_eq!(extract_filename_from_data(&data, FileType::Unknown), Some("my_notes_file".to_string()));
    assert_eq!(extract_filename_from_data(&[0u8; 150], FileType::Unknown), None);
}

#[test]
fn exif_date_time() {
    let mut section = b"Exif\0\0".to_vec();
    section.extend_from_slice(b"Make=Cam DateTime=2021:02:03 04:05:06\0rest");
    section.extend_from_slice(&[b' '; 80]);
    assert_eq!(extract_exif_metadata(&section), Some("IMG_20210203_040506.jpg".to_string()));
    assert_eq!(extract_exif_metadata(&section[..50]), None);
}

#[test]
fn names_from_decoded_text() {
    assert_eq!(pdf_title_name("<< /Title (Annual Report) >>"), Some("Annual_Report.pdf".to_string()));
    assert_eq!(pdf_title_name("/Title ()"), None);
    assert_eq!(pdf_title_name("no title here"), None);
    assert_eq!(date_file_name("2023:05:17 10:20:30"), Some("IMG_20230517_102030.jpg".to_string()));
    assert_eq!(date_file_name("2023:05:17T10:20:30"), None);
    assert_eq!(mp3_title_name("\0 AC/DC Live \0"), Some("AC_DC Live.mp3".to_string()));
    assert_eq!(mp3_title_name("\0\0  "), None);
}
