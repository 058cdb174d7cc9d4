use recoverpill::ui::{page_window, visible_files};
use recoverpill::ui::{filter_text_hit, filter_type, lex_less};
use recoverpill::ui::{recovery_blocker, scan_blocker, ConsoleLevel, RecoveryTally};
use recoverpill::scanner::FoundFile;
use recoverpill::signatures::FileType;
use recoverpill::ui::{
    can_have_preview, console_push, deselect_all, files_to_recover, get_current_type_filters, get_thumb,
    get_thumb_android, select_all, select_by_category, sort_files, toggle_file_selection, SortOption,
};

fn file(name: &str, t: FileType, size: u64, rec: u32) -> FoundFile {
    FoundFile {
        offset: size,
        file_type: t,
        file_name: name.to_string(),
        estimated_size: size,
        recoverability: rec,
        entropy: 0,
        signature_matched: String::new(),
        selected: false,
    }
}

#[test]
fn icons_and_previews() {
    assert_eq!(get_thumb(FileType::Jpeg), "🖼️");
    assert_eq!(get_thumb(FileType::Unknown), "❓");
    assert_eq!(get_thumb_android(FileType::Apk), "📦");
    assert_eq!(get_thumb_android(FileType::Wav), "📱");
    assert!(can_have_preview(FileType::Png));
    assert!(!can_have_preview(FileType::Pdf));
}

#[test]
fn type_filters_parse() {
    assert_eq!(get_current_type_filters(&None), None);
    let f = get_current_type_filters(&Some(" JPG, png,foo,,7z".to_string())).unwrap();
    assert_eq!(f, vec![FileType::Jpeg, FileType::Png, FileType::SevenZip]);
}

#[test]
fn selecting_files() {
    let mut files = vec![
        file("a.jpg", FileType::Jpeg, 10, 900),
        file("b.pdf", FileType::Pdf, 20, 400),
        file("c.png", FileType::Png, 30, 300),
    ];
    assert_eq!(select_by_category(&mut files, "Imágenes", 500), 1);
    assert!(files[0].selected && !files[1].selected && !files[2].selected);
    assert_eq!(select_all(&mut files, "PDF", &None, 0), 1);
    assert!(!files[0].selected && files[1].selected);
    assert_eq!(select_all(&mut files, "", &Some("png, jpg".to_string()), 0), 2);
    assert!(files[0].selected && files[2].selected);
    toggle_file_selection(&mut files, 0);
    assert!(!files[0].selected);
    toggle_file_selection(&mut files, 9);
    let chosen = files_to_recover(&files, 0);
    assert_eq!(chosen, vec![(30, FileType::Png, 30)]);
    deselect_all(&mut files);
    assert!(files.iter().all(|f| !f.selected));
}

#[test]
fn sorting_is_stable() {
    let mut files = vec![
        file("b", FileType::Pdf, 5, 1),
        file("A", FileType::Jpeg, 5, 2),
        file("c", FileType::Png, 1, 3),
    ];
    sort_files(&mut files, SortOption::Size, true);
    let names: Vec<&str> = files.iter().map(|f| f.file_name.as_str()).collect();
    assert_eq!(names, vec!["c", "b", "A"]);
    sort_files(&mut files, SortOption::Size, false);
    let names: Vec<&str> = files.iter().map(|f| f.file_name.as_str()).collect();
    assert_eq!(names, vec!["b", "A", "c"]);
    sort_files(&mut files, SortOption::Name, true);
    let names: Vec<&str> = files.iter().map(|f| f.file_name.as_str()).collect();
    assert_eq!(names, vec!["A", "b", "c"]);
    sort_files(&mut files, SortOption::Type, true);
    let types: Vec<FileType> = files.iter().map(|f| f.file_type).collect();
    assert_eq!(types, vec![FileType::Jpeg, FileType::Pdf, FileType::Png]);
}

#[test]
fn console_keeps_last_hundred() {
    let mut msgs: Vec<u32> = Vec::new();
    for i in 0..150 {
        console_push(&mut msgs, i);
    }
    assert_eq!(msgs.len(), 100);
    assert_eq!(msgs[0], 50);
    assert_eq!(msgs[99], 149);
}

#[test]
fn visible_files_and_pages() {
    let files = vec![
        file("a.jpg", FileType::Jpeg, 10, 900),
        file("b.pdf", FileType::Pdf, 20, 400),
        file("c.png", FileType::Png, 30, 300),
    ];
    assert_eq!(visible_files(&files, "", &None, None), vec![0, 1, 2]);
    assert_eq!(visible_files(&files, "", &Some(String::new()), None), vec![0, 1, 2]);
    assert_eq!(visible_files(&files, "", &Some("png".to_string()), None), vec![2]);
    assert_eq!(visible_files(&files, "B", &None, Some(350)), vec![1]);
    assert_eq!(visible_files(&files, "", &None, Some(350)), vec![0, 1]);
    let w = page_window(45, 20, 7);
    assert_eq!((w.total_pages, w.current_page, w.start, w.end), (3, 2, 40, 45));
    let w = page_window(0, 20, 0);
    assert_eq!((w.total_pages, w.current_page, w.start, w.end), (0, 0, 0, 0));
}

#[test]
fn recovery_preconditions_and_tally() {
    assert_eq!(recovery_blocker(0, "/out", false, Some(0), 1), Some((ConsoleLevel::Warning, "No hay archivos seleccionados para recuperar".to_string())));
    assert_eq!(recovery_blocker(3, "", false, Some(0), 1), Some((ConsoleLevel::Warning, "Define una carpeta de recuperación primero".to_string())));
    assert_eq!(recovery_blocker(3, "/out", true, Some(0), 1), Some((ConsoleLevel::Warning, "Ya hay una recuperación en progreso".to_string())));
    assert_eq!(recovery_blocker(3, "/out", false, None, 1), Some((ConsoleLevel::Error, "No hay unidad seleccionada".to_string())));
    assert_eq!(recovery_blocker(3, "/out", false, Some(1), 1), Some((ConsoleLevel::Error, "Unidad inválida".to_string())));
    assert_eq!(recovery_blocker(3, "/out", false, Some(0), 1), None);
    assert_eq!(scan_blocker(None, true, 0), Some((ConsoleLevel::Warning, "Seleccione una unidad primero".to_string())));
    assert_eq!(scan_blocker(Some(0), true, 1), Some((ConsoleLevel::Warning, "Ya hay un escaneo en progreso".to_string())));
    assert_eq!(scan_blocker(Some(2), false, 2), Some((ConsoleLevel::Error, "Unidad inválida".to_string())));
    assert_eq!(scan_blocker(Some(1), false, 2), None);
    let mut t = RecoveryTally::new();
    for i in 0..7 {
        t.record_success(format!("f{}", i));
    }
    t.record_failure();
    assert_eq!((t.success_count, t.fail_count), (7, 1));
    assert_eq!(t.first_names, vec!["f0", "f1", "f2", "f3", "f4"]);
}

#[test]
fn filter_pieces_and_text_hits() {
    assert!(filter_text_hit("", "a.jpg", "jpg"));
    assert!(filter_text_hit("vac", "vacation.jpg", "jpg"));
    assert!(filter_text_hit("pd", "report", "pdf"));
    assert!(!filter_text_hit("zip", "report", "pdf"));
    assert_eq!(filter_type("jpeg"), Some(FileType::Jpeg));
    assert_eq!(filter_type("JPG"), None);
    assert!(lex_less(&['a', 'b'], &['a', 'c']));
    assert!(lex_less(&['a'], &['a', 'a']));
    assert!(!lex_less(&['b'], &['a', 'z']));
}
