use recoverpill::classifier::AIClassifier;
use recoverpill::entropy::{byte_frequencies, classify_entropy, EntropyAnalyzer, EntropyClass, ENTROPY_7_5};
use recoverpill::signatures::FileType;

/// Shannon entropy of the first 2048 bytes, from the library's histogram:
/// the entropy input that the classifier expects of its caller.
fn entropy_of(data: &[u8]) -> f64 {
    let window = if data.len() > 2048 { &data[..2048] } else { data };
    if window.is_empty() {
        return 0.0;
    }
    let freq = byte_frequencies(window);
    let len = window.len() as f64;
    let mut e = 0.0;
    for &count in freq.iter() {
        if count > 0 {
            let p = count as f64 / len;
            e -= p * p.log2();
        }
    }
    e
}

fn entropy_bits(data: &[u8]) -> u64 {
    entropy_of(data).to_bits()
}

#[test]
fn test_classifier() {
    let classifier = AIClassifier::new();
    let jpeg_data = vec![0xFF, 0xD8, 0xFF, 0xE0, 0x00, 0x10, 0x4A, 0x46, 0x49, 0x46, 0x00, 0x01];
    let classification = classifier.classify(&jpeg_data, entropy_bits(&jpeg_data));
    assert_eq!(classification.file_type, FileType::Jpeg);
    // confidence is kept in tenths of a percent: above 50%
    assert!(classification.confidence > 500);
}

#[test]
fn test_pdf() {
    let classifier = AIClassifier::new();
    let pdf_data = b"%PDF-1.4\n1 0 obj\n<<\n>>\nendobj";
    let classification = classifier.classify(pdf_data, entropy_bits(pdf_data));
    assert_eq!(classification.file_type, FileType::Pdf);
}

#[test]
fn test_dex() {
    let classifier = AIClassifier::new();
    let dex_data = b"dex\n035\0...";
    let classification = classifier.classify(dex_data, entropy_bits(dex_data));
    assert_eq!(classification.file_type, FileType::Dex);
}

#[test]
fn test_sqlite() {
    let classifier = AIClassifier::new();
    let sqlite_data = b"SQLite format 3\0...";
    let classification = classifier.classify(sqlite_data, entropy_bits(sqlite_data));
    assert_eq!(classification.file_type, FileType::Db);
}

#[test]
fn histogram_counts_each_byte() {
    let freq = byte_frequencies(&[1, 2, 2, 255, 2]);
    assert_eq!(freq.len(), 256);
    assert_eq!(freq[1], 1);
    assert_eq!(freq[2], 3);
    assert_eq!(freq[255], 1);
    assert_eq!(freq[0], 0);
}

#[test]
fn entropy_classes_rise_with_entropy() {
    assert_eq!(classify_entropy(0.0f64.to_bits()), EntropyClass::VeryLow);
    assert_eq!(classify_entropy(3.0f64.to_bits()), EntropyClass::Low);
    assert_eq!(classify_entropy(5.0f64.to_bits()), EntropyClass::Medium);
    assert_eq!(classify_entropy(7.0f64.to_bits()), EntropyClass::High);
    assert_eq!(classify_entropy(7.9f64.to_bits()), EntropyClass::VeryHigh);
}

#[test]
fn encrypted_above_seven_and_a_half() {
    let analyzer = EntropyAnalyzer::new();
    assert!(!analyzer.is_encrypted_or_compressed(ENTROPY_7_5));
    assert!(analyzer.is_encrypted_or_compressed(7.6f64.to_bits()));
    assert_eq!(ENTROPY_7_5, 7.5f64.to_bits());
}

#[test]
fn classification_confidence_is_a_percentage() {
    let classifier = AIClassifier::new();
    let data: Vec<u8> = (0..4096u32).map(|i| (i * 7 % 256) as u8).collect();
    let c = classifier.classify(&data, entropy_bits(&data));
    assert!(c.confidence <= 1000);
    assert!(c.recovery_prediction.probability <= 1000);
}

#[test]
fn statistics_count_types_and_validity() {
    let classifier = AIClassifier::new();
    let a = classifier.classify(b"%PDF-1.4\n1 0 obj\n<<\n>>\nendobj", entropy_bits(b"%PDF-1.4\n1 0 obj\n<<\n>>\nendobj"));
    let b = classifier.classify(b"SQLite format 3\0...", entropy_bits(b"SQLite format 3\0..."));
    let c = classifier.classify(b"%PDF-1.5 more", entropy_bits(b"%PDF-1.5 more"));
    let expected_conf = a.confidence as u64 + b.confidence as u64 + c.confidence as u64;
    let stats = classifier.get_statistics(&[a, b, c]);
    assert_eq!(stats.total, 3);
    assert_eq!(stats.valid_files + stats.corrupted_files, 3);
    assert_eq!(stats.total_confidence, expected_conf);
    assert_eq!(stats.by_type.len(), 2);
    let pdf = stats.by_type.iter().find(|t| t.file_type == FileType::Pdf).unwrap();
    assert_eq!(pdf.count, 2);
    let empty = classifier.get_statistics(&[]);
    assert_eq!((empty.total, empty.by_type.len()), (0, 0));
}
