use recoverpill::classifier::AIClassifier;
use recoverpill::entropy::byte_frequencies;
use recoverpill::scan_loop::{get_files_by_category, get_files_by_type, ScanLoop};
use recoverpill::signatures::FileType;

fn entropy_bits(data: &[u8]) -> u64 {
    if data.is_empty() {
        return 0.0f64.to_bits();
    }
    let freq = byte_frequencies(data);
    let len = data.len() as f64;
    let mut e = 0.0f64;
    for &c in freq.iter() {
        if c > 0 {
            let p = c as f64 / len;
            e -= p * p.log2();
        }
    }
    e.to_bits()
}

#[test]
fn scan_reads_whole_disk_in_chunks() {
    let mut s = ScanLoop::new(3 * 1048576 / 2);
    assert_eq!(s.next_read(), Some((0, 1048576)));
    s.record_read_failure();
    assert_eq!(s.offset(), 1048576);
    assert_eq!(s.bytes_scanned(), 1048576);
    assert_eq!(s.next_read(), Some((1048576, 1048576 / 2)));
    s.record_read_failure();
    assert_eq!(s.next_read(), None);
}

#[test]
fn scan_finds_files_once() {
    let classifier = AIClassifier::new();
    let mut data = vec![0u8; 1024];
    let png = [0x89u8, 0x50, 0x4E, 0x47, 0x0D, 0x0A, 0x1A, 0x0A];
    data[512..520].copy_from_slice(&png);
    for (i, b) in data.iter_mut().enumerate().skip(520) {
        *b = (i * 31 % 251) as u8;
    }
    let entropies: Vec<u64> = data.chunks(512).map(entropy_bits).collect();
    let mut s = ScanLoop::new(1024);
    let added = s.record_chunk(&data, &None, &classifier, &entropies);
    assert_eq!(added.len(), 1);
    assert_eq!(added[0].offset, 512);
    assert_eq!(added[0].file_type, FileType::Png);
    assert_eq!(s.found_files().len(), 1);
    assert_eq!(get_files_by_type(s.found_files(), FileType::Png).len(), 1);
    assert_eq!(get_files_by_category(s.found_files(), "Video").len(), 0);
    let mut again = ScanLoop::new(1024);
    let _ = again.record_chunk(&data, &None, &classifier, &entropies);
    let empty: Vec<u8> = Vec::new();
    let none = s.record_chunk(&empty, &None, &classifier, &Vec::new());
    assert!(none.is_empty());
    assert!(s.is_finished() || s.next_read().is_none());
}

#[test]
fn scan_of_unknown_size_fails() {
    match ScanLoop::start("D:".to_string(), 0) {
        Err(r) => {
            assert!(!r.success);
            assert!(r.files_found.is_empty());
            assert_eq!(r.total_bytes, 0);
            assert_eq!(r.error_message, Some("No se pudo detectar el tamaño del disco".to_string()));
        }
        Ok(_) => panic!("a disk of unknown size must not be scanned"),
    }
    match ScanLoop::start("D:".to_string(), 4096) {
        Ok(s) => {
            assert_eq!(s.total_bytes(), 4096);
            assert_eq!(s.next_read(), Some((0, 4096)));
        }
        Err(_) => panic!("a disk of known size is scanned"),
    }
}
