use recoverpill::recovery::{
    calculate_content_hash, category_of_extension, extension_category, find_file_end, group_by_category,
    read_size_for, recovered_file_name, recovered_header_valid, single_read, CopyState,
    CopyStep, RecoveryEngine, COPY_CHUNK_SIZE,
};
use recoverpill::recovery::recovered_file_info;
use recoverpill::scanner::FoundFile;
use recoverpill::signatures::FileType;

fn found(offset: u64, t: FileType, size: u64) -> FoundFile {
    FoundFile {
        offset,
        file_type: t,
        file_name: String::from("f"),
        estimated_size: size,
        recoverability: 900,
        entropy: 0,
        signature_matched: String::new(),
        selected: true,
    }
}

#[test]
fn read_size_uses_estimate_then_type_limits() {
    assert_eq!(read_size_for(&found(0, FileType::Jpeg, 1234)), 1234);
    assert_eq!(read_size_for(&found(0, FileType::Jpeg, 0)), 25 * 1024 * 1024);
    assert_eq!(read_size_for(&found(0, FileType::Mp4, 0)), 1024 * 1024 * 1024);
    assert_eq!(read_size_for(&found(0, FileType::Zip, 0)), 500 * 1024 * 1024);
    assert_eq!(read_size_for(&found(0, FileType::Unknown, 0)), 10 * 1024 * 1024);
    assert_eq!(read_size_for(&found(0, FileType::Apk, 0)), 50 * 1024 * 1024);
    let engine = RecoveryEngine::new("/tmp/out");
    assert_eq!(engine.calculate_read_size(&found(0, FileType::Exe, 0)), 200 * 1024 * 1024);
}

#[test]
fn recovered_names_show_offset_in_hex() {
    assert_eq!(recovered_file_name(&found(0x1A00, FileType::Jpeg, 0)), "JPG_0x1A00.jpg");
    assert_eq!(recovered_file_name(&found(0, FileType::Png, 0)), "PNG_0x0.png");
}

#[test]
fn engine_keeps_output_directory() {
    let mut engine = RecoveryEngine::new("/tmp/a");
    assert_eq!(engine.output_dir(), "/tmp/a");
    engine.set_output_dir("/tmp/b");
    assert_eq!(engine.output_dir(), "/tmp/b");
}

#[test]
fn jpeg_ends_after_eoi() {
    let data = vec![0xFF, 0xD8, 0x01, 0xFF, 0xD9, 0x77, 0x88];
    assert_eq!(find_file_end(&data, FileType::Jpeg), vec![0xFF, 0xD8, 0x01, 0xFF, 0xD9]);
    let no_end = vec![0xFF, 0xD8, 0x01];
    assert_eq!(find_file_end(&no_end, FileType::Jpeg), no_end);
}

#[test]
fn bmp_and_wav_end_at_header_size() {
    let mut bmp = vec![0u8; 40];
    bmp[0] = 0x42;
    bmp[1] = 0x4D;
    bmp[2] = 20;
    assert_eq!(find_file_end(&bmp, FileType::Bmp).len(), 20);
    let mut wav = vec![0u8; 60];
    wav[4] = 50;
    assert_eq!(find_file_end(&wav, FileType::Wav).len(), 50);
    wav[4] = 100;
    assert_eq!(find_file_end(&wav, FileType::Wav).len(), 60);
}

#[test]
fn mkv_data_is_kept_whole() {
    let data = vec![0x1F, 0x43, 0xB6, 0x75, 1, 2, 3, 0x1F, 0x43, 0xB6, 0x75, 9];
    assert_eq!(find_file_end(&data, FileType::MkV), data);
}

#[test]
fn hash_looks_at_first_four_kilobytes() {
    let mut a = vec![7u8; 5000];
    let b = a.clone();
    a[4500] = 1;
    assert_eq!(calculate_content_hash(&a), calculate_content_hash(&b));
    a[10] = 1;
    assert_ne!(calculate_content_hash(&a), calculate_content_hash(&b));
    let h = calculate_content_hash(b"abc");
    assert!(h.chars().all(|c| c.is_ascii_hexdigit() && !c.is_ascii_uppercase()));
}

#[test]
fn categories_of_extensions() {
    assert_eq!(extension_category("jpg"), "Imágenes");
    assert_eq!(extension_category("7z"), "Archivos");
    assert_eq!(extension_category("webm"), "Video");
    assert_eq!(extension_category("xyz"), "Otros");
    assert_eq!(category_of_extension("MP3"), "Audio");
}

#[test]
fn organize_groups_by_category() {
    let engine = RecoveryEngine::new("/out");
    let files = vec![
        "/out/Imágenes/JPG_0x0.jpg".to_string(),
        "/out/a.PDF".to_string(),
        "/out/noext".to_string(),
        "/out/b.png".to_string(),
    ];
    let groups = engine.organize_by_type(&files);
    assert_eq!(groups.len(), 2);
    let images = groups.iter().find(|g| g.category == "Imágenes").unwrap();
    assert_eq!(images.files, vec!["/out/Imágenes/JPG_0x0.jpg".to_string(), "/out/b.png".to_string()]);
    let docs = groups.iter().find(|g| g.category == "Documentos").unwrap();
    assert_eq!(docs.files, vec!["/out/a.PDF".to_string()]);
    let direct = group_by_category(&files, &[Some("A".to_string()), None, Some("B".to_string()), Some("A".to_string())]);
    assert_eq!(direct.len(), 2);
    assert_eq!(direct[0].category, "A");
    assert_eq!(direct[0].files.len(), 2);
}

#[test]
fn organize_plain_names_by_last_extension() {
    let engine = RecoveryEngine::new("out");
    let files = vec![
        "photo.JPG".to_string(),
        ".hidden".to_string(),
        "archive.tar.GZ".to_string(),
        "trailing.".to_string(),
        "song.flac".to_string(),
        "tool.exe".to_string(),
        "out/a.b/notes".to_string(),
        "out/docs/Report.PDF".to_string(),
    ];
    let groups = engine.organize_by_type(&files);
    let names: Vec<&str> = groups.iter().map(|g| g.category.as_str()).collect();
    assert_eq!(names, vec!["Imágenes", "Archivos", "Otros", "Audio", "Ejecutables", "Documentos"]);
    assert_eq!(groups[5].files, vec!["out/docs/Report.PDF".to_string()]);
    assert_eq!(groups[1].files, vec!["archive.tar.GZ".to_string()]);
    assert_eq!(groups[2].files, vec!["trailing.".to_string()]);
}

#[test]
fn header_of_zeros_is_invalid() {
    assert!(!recovered_header_valid(&[0u8; 16]));
    assert!(recovered_header_valid(&[0, 0, 3]));
}

#[test]
fn copies_read_in_chunks_until_done() {
    assert!(single_read(1024 * 1024));
    assert!(!single_read(1024 * 1024 + 1));
    let total = COPY_CHUNK_SIZE + 100;
    let mut c = CopyState::new(1000, total);
    match c.next_step() {
        CopyStep::Read { offset, len } => {
            assert_eq!(offset, 1000);
            assert_eq!(len, COPY_CHUNK_SIZE);
            c.record(len, Some(len));
        }
        CopyStep::Done => panic!("expected a read"),
    }
    match c.next_step() {
        CopyStep::Read { offset, len } => {
            assert_eq!(offset, 1000 + COPY_CHUNK_SIZE);
            assert_eq!(len, 100);
            c.record(len, Some(40));
        }
        CopyStep::Done => panic!("expected a read"),
    }
    assert!(matches!(c.next_step(), CopyStep::Done));
    assert_eq!(c.written(), COPY_CHUNK_SIZE + 40);
    let mut d = CopyState::new(0, 10);
    d.record(10, None);
    assert!(matches!(d.next_step(), CopyStep::Done));
    assert_eq!(d.written(), 0);
}

#[test]
fn recovered_file_information() {
    let info = recovered_file_info("JPG_0x200.jpg", 1234, Some(&[0xFF, 0xD8, 0, 0]));
    assert_eq!(info.path, "JPG_0x200.jpg");
    assert_eq!(info.size, 1234);
    assert_eq!(info.extension, "jpg");
    assert!(info.is_valid);
    let blank = recovered_file_info("README", 0, Some(&[0u8; 16]));
    assert_eq!(blank.extension, "unknown");
    assert!(!blank.is_valid);
    assert!(!recovered_file_info("a.bin", 3, None).is_valid);
}

#[test]
fn windows_paths_are_grouped_by_extension() {
    let engine = RecoveryEngine::new(r"C:\R");
    let files = vec![
        r"C:\R\Imágenes\JPG_0x1000.jpg".to_string(),
        r"C:\R\Audio\MP3_0x2000.MP3".to_string(),
        r"C:\R\Imágenes\PNG_0x3000.png".to_string(),
    ];
    let groups = engine.organize_by_type(&files);
    assert_eq!(groups.len(), 2);
    assert_eq!(groups[0].category, "Imágenes");
    assert_eq!(groups[0].files, vec![files[0].clone(), files[2].clone()]);
    assert_eq!(groups[1].category, "Audio");
    let info = recovered_file_info(r"C:\R\Video\MP4_0x0.mp4", 10, None);
    assert_eq!(info.extension, "mp4");
}

#[test]
fn output_directory_is_the_last_one_set() {
    let mut engine = RecoveryEngine::new("/a");
    assert_eq!(engine.output_dir(), "/a");
    engine.set_output_dir("/b");
    engine.set_output_dir("/c");
    assert_eq!(engine.output_dir(), "/c");
}
