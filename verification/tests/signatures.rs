use recoverpill::signatures::{detect_file_type, get_categories, FileType};

#[test]
fn test_jpeg_signature() {
    let jpeg_header = vec![0xFF, 0xD8, 0xFF, 0xE0, 0x00, 0x10, 0x4A, 0x46];
    let sig = detect_file_type(&jpeg_header);
    assert!(sig.is_some());
    assert_eq!(sig.unwrap().file_type, FileType::Jpeg);
}

#[test]
fn test_png_signature() {
    let png_header = vec![0x89, 0x50, 0x4E, 0x47, 0x0D, 0x0A, 0x1A, 0x0A];
    let sig = detect_file_type(&png_header);
    assert!(sig.is_some());
    assert_eq!(sig.unwrap().file_type, FileType::Png);
}

#[test]
fn detected_signature_matches_data() {
    let data = b"%PDF-1.7 rest".to_vec();
    let sig = detect_file_type(&data).unwrap();
    assert_eq!(sig.file_type, FileType::Pdf);
    assert!(sig.matches(&data));
}

#[test]
fn unknown_data_has_no_signature() {
    assert!(detect_file_type(&[0x00, 0x11, 0x22, 0x33, 0x44, 0x55, 0x66, 0x77]).is_none());
}

#[test]
fn every_category_is_offered() {
    let cats = get_categories();
    for t in [FileType::Jpeg, FileType::Mp4, FileType::Mp3, FileType::Pdf, FileType::Zip, FileType::Exe, FileType::Unknown, FileType::Apk, FileType::Db] {
        assert!(cats.contains(&t.category()));
    }
}

#[test]
fn extensions_and_names() {
    assert_eq!(FileType::Jpeg.extension(), "jpg");
    assert_eq!(FileType::Jpeg.extension_upper(), "JPG");
    assert_eq!(FileType::Png.category(), "Imágenes");
}

#[test]
fn end_markers_that_end_the_data_count() {
    let pdf = b"%PDF-1.4\n%%EOF".to_vec();
    let sig = detect_file_type(&pdf).unwrap();
    assert_eq!(sig.file_type, FileType::Pdf);
    assert_eq!(sig.estimate_size(&pdf), Some(14));
    let mut zip = vec![0x50, 0x4B, 0x05, 0x06];
    zip.extend_from_slice(&[0u8; 18]);
    let sig = detect_file_type(&zip).unwrap();
    assert_eq!(sig.file_type, FileType::Zip);
    assert_eq!(sig.estimate_size(&zip), Some(22));
}

#[test]
fn dex_and_sqlite_are_not_in_the_signature_table() {
    assert!(detect_file_type(b"dex\n035\0 more bytes").is_none());
    assert!(detect_file_type(b"SQLite format 3\0").is_none());
}
