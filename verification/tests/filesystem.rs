use recoverpill::filesystem::{
    detect_filesystem, fat_entry_step, get_file_extension, parse_mft_record, read_request, short_name,
    type_from_extension, FatEntryStep, FatWalk, FileEntry, FileSystemType, FsLayout,
};
use recoverpill::classifier::AIClassifier;
use recoverpill::filesystem::listed_files;
use recoverpill::signatures::FileType;

#[test]
fn boot_sectors() {
    assert!(detect_filesystem(&[0u8; 100]).is_err());
    let mut ntfs = vec![0u8; 512];
    ntfs[3..7].copy_from_slice(b"NTFS");
    assert_eq!(detect_filesystem(&ntfs), Ok(FileSystemType::Ntfs));
    let mut fat = vec![0u8; 512];
    fat[82..90].copy_from_slice(b"FAT32   ");
    assert_eq!(detect_filesystem(&fat), Ok(FileSystemType::Fat32));
    let mut fat16 = vec![0u8; 512];
    fat16[54..59].copy_from_slice(b"FAT16");
    assert_eq!(detect_filesystem(&fat16), Ok(FileSystemType::Fat32));
    assert_eq!(detect_filesystem(&[0u8; 512]), Ok(FileSystemType::Unknown));
}

fn fat_boot() -> Vec<u8> {
    let mut b = vec![0u8; 512];
    b[11] = 0x00;
    b[12] = 0x02; // 512 bytes per sector
    b[13] = 8; // 8 sectors per cluster
    b[14] = 32; // 32 reserved sectors
    b[44] = 2; // root cluster 2
    b
}

#[test]
fn fat_geometry_and_clusters() {
    let mut l = FsLayout::new(FileSystemType::Fat32);
    assert_eq!(l.cluster_size, 4096);
    let root = l.read_fat32_boot(&fat_boot());
    assert_eq!(root, 2);
    assert_eq!(l.cluster_size, 4096);
    assert_eq!(l.fat_offset, Some(32 * 512));
    assert_eq!(l.cluster_to_offset(2), 32 * 512 + 1024);
    assert_eq!(l.cluster_to_offset(5), 32 * 512 + 1024 + 3 * 4096);
    assert_eq!(l.cluster_to_offset(1), 0);
}

fn entry(name: &[u8; 11], attr: u8, cluster: u16, size: u32) -> Vec<u8> {
    let mut e = vec![0u8; 32];
    e[..11].copy_from_slice(name);
    e[11] = attr;
    // the low half of the first cluster, as the entries are read here
    e[20..22].copy_from_slice(&cluster.to_le_bytes());
    e[28..32].copy_from_slice(&size.to_le_bytes());
    e
}

#[test]
fn fat_entries() {
    let mut high = entry(b"BIG     BIN", 0x20, 0, 1);
    high[26] = 1;
    let mut l0 = FsLayout::new(FileSystemType::Fat32);
    l0.read_fat32_boot(&fat_boot());
    match fat_entry_step(&l0, &high, "") {
        FatEntryStep::Entry { entry, .. } => assert_eq!(entry.offset, l0.cluster_to_offset(65536)),
        _ => panic!("expected an entry"),
    }
    let mut l = FsLayout::new(FileSystemType::Fat32);
    l.read_fat32_boot(&fat_boot());
    assert_eq!(short_name(b"README  TXT"), "README.TXT");
    assert_eq!(short_name(b"NOEXT      "), "NOEXT");
    match fat_entry_step(&l, &entry(b"PHOTO   JPG", 0x20, 5, 1234), "") {
        FatEntryStep::Entry { entry, subdir } => {
            assert_eq!(entry.name, "PHOTO.JPG");
            assert_eq!(entry.size, 1234);
            assert_eq!(entry.file_type, "jpg");
            assert_eq!(entry.offset, l.cluster_to_offset(5));
            assert!(subdir.is_none());
        }
        _ => panic!("expected an entry"),
    }
    match fat_entry_step(&l, &entry(b"DIR        ", 0x10, 3, 0), "Long Dir") {
        FatEntryStep::Entry { entry, subdir } => {
            assert_eq!(entry.name, "Long Dir");
            assert_eq!(entry.file_type, "Directorio");
            assert_eq!(subdir, Some(l.cluster_to_offset(3)));
        }
        _ => panic!("expected an entry"),
    }
    assert!(matches!(fat_entry_step(&l, &[0u8; 32], ""), FatEntryStep::End));
    let mut deleted = entry(b"GONE    TXT", 0x20, 5, 1);
    deleted[0] = 0xE5;
    assert!(matches!(fat_entry_step(&l, &deleted, ""), FatEntryStep::Skip));
    let mut lfn = vec![0u8; 32];
    lfn[0] = 0x41;
    lfn[11] = 0x0F;
    let units: [u16; 13] = [b'a' as u16, b'b' as u16, 0, 0xFFFF, 0xFFFF, 0xFFFF, 0xFFFF, 0xFFFF, 0xFFFF, 0xFFFF, 0xFFFF, 0xFFFF, 0xFFFF];
    let offs = [1usize, 3, 5, 7, 9, 14, 16, 18, 20, 22, 24, 28, 30];
    for (u, o) in units.iter().zip(offs.iter()) {
        lfn[*o..*o + 2].copy_from_slice(&u.to_le_bytes());
    }
    match fat_entry_step(&l, &lfn, "old") {
        FatEntryStep::LongName(s) => assert_eq!(s, "ab"),
        _ => panic!("expected a long name"),
    }
}

#[test]
fn fat_walk_descends_into_directories() {
    let mut l = FsLayout::new(FileSystemType::Fat32);
    l.read_fat32_boot(&fat_boot());
    let root = l.cluster_to_offset(2);
    let mut w = FatWalk::new(root);
    assert_eq!(w.next_read(), Some(root));
    w.record_entry(&l, &entry(b"SUB        ", 0x10, 4, 0));
    assert_eq!(w.next_read(), Some(l.cluster_to_offset(4)));
    w.record_entry(&l, &entry(b"A       TXT", 0x20, 9, 10));
    w.record_entry(&l, &[0u8; 32]);
    assert_eq!(w.next_read(), Some(root + 32));
    w.record_failure();
    assert_eq!(w.next_read(), None);
    let files = w.into_files();
    assert_eq!(files.len(), 2);
    assert_eq!(files[0].name, "SUB");
    assert_eq!(files[1].name, "A.TXT");
}

#[test]
fn mft_records() {
    let mut r = vec![0u8; 1024];
    r[0..4].copy_from_slice(b"FILE");
    r[20] = 56;
    let a = 56;
    r[a..a + 4].copy_from_slice(&0x30u32.to_le_bytes());
    r[a + 4..a + 8].copy_from_slice(&80u32.to_le_bytes());
    r[a + 64] = 3;
    for (k, c) in "x.db".encode_utf16().take(3).enumerate() {
        r[a + 66 + 2 * k..a + 68 + 2 * k].copy_from_slice(&c.to_le_bytes());
    }
    let b = a + 80;
    r[b..b + 4].copy_from_slice(&0x80u32.to_le_bytes());
    r[b + 4..b + 8].copy_from_slice(&24u32.to_le_bytes());
    r[b + 16..b + 20].copy_from_slice(&777u32.to_le_bytes());
    r[b + 20..b + 24].copy_from_slice(&4096u32.to_le_bytes());
    let e = parse_mft_record(&r).unwrap();
    assert_eq!(e.name, "x.d");
    assert_eq!(e.size, 777);
    assert_eq!(e.offset, 4096);
    assert_eq!(e.file_type, "d");
    assert!(!e.is_deleted);
    let mut not_file = r.clone();
    not_file[0] = b'X';
    assert!(parse_mft_record(&not_file).is_none());
}

#[test]
fn extensions_of_names() {
    assert_eq!(get_file_extension("Photo.JPG"), "jpg");
    assert_eq!(get_file_extension("archive.tar.GZ"), "gz");
    assert_eq!(get_file_extension("README"), "desconocido");
    assert_eq!(type_from_extension("jpeg"), FileType::Jpeg);
    assert_eq!(type_from_extension("xlsx"), FileType::Xls);
    assert_eq!(type_from_extension("rar"), FileType::Unknown);
}

#[test]
fn reading_listed_files() {
    let e = FileEntry {
        name: "a".to_string(),
        size: 10_000,
        offset: 512,
        is_deleted: false,
        file_type: "txt".to_string(),
        created: None,
        modified: None,
    };
    assert_eq!(read_request(&e, 4096), Some((512, 4096)));
    let small = FileEntry { size: 10, ..e };
    assert_eq!(read_request(&small, 4096), Some((512, 10)));
    let empty = FileEntry { size: 0, ..small };
    assert_eq!(read_request(&empty, 4096), None);
}

#[test]
fn whole_listing_labels_follow_deleted_flag() {
    let classifier = AIClassifier::new();
    let live = FileEntry {
        name: "foto.jpg".to_string(),
        size: 4,
        offset: 1024,
        is_deleted: false,
        file_type: "jpg".to_string(),
        created: None,
        modified: None,
    };
    let gone = FileEntry {
        name: "doc.pdf".to_string(),
        size: 10,
        offset: 2048,
        is_deleted: true,
        file_type: "pdf".to_string(),
        created: None,
        modified: None,
    };
    let samples = vec![vec![0xFF, 0xD8, 0xFF, 0xE0], b"%PDF-1.4 x".to_vec()];
    let files = listed_files(&classifier, &[live, gone], &samples, &[0, 0], &[0, 0]);
    assert_eq!(files.len(), 2);
    assert_eq!(files[0].signature_matched, "Sistema de archivos (existente)");
    assert_eq!(files[0].recoverability, 950);
    assert_eq!(files[0].file_type, FileType::Jpeg);
    assert_eq!(files[1].signature_matched, "Sistema de archivos (eliminado)");
    assert_eq!(files[1].file_type, FileType::Pdf);
}
