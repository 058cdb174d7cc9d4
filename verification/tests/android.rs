use recoverpill::android::backup_subdir;
use recoverpill::android::{android_type_of_lower, partitions_in_text, property_in_text, serials_in_text, shows_root, sizes_fit_in_text};
use recoverpill::android::{database_entry, device_serials, is_root_output, property_value, AndroidRecoveryEngine, DeviceQuery};
use recoverpill::signatures::FileType;

#[test]
fn device_list() {
    let out = b"List of devices attached\n* daemon started successfully\nABC123 device usb:1 model:Pixel\nXYZ offline\n\nQQQ device\n";
    let serials = device_serials(out);
    assert_eq!(serials, vec!["ABC123".to_string(), "QQQ".to_string()]);
    assert!(device_serials(b"").is_empty());
}

#[test]
fn properties_and_root() {
    assert_eq!(property_value(b"  Pixel 7\r\n"), Some("Pixel 7".to_string()));
    assert_eq!(property_value(b"\n"), None);
    assert!(is_root_output(b"uid=0(root) gid=0(root)"));
    assert!(!is_root_output(b"uid=2000(shell)"));
}

#[test]
fn devices_from_queries() {
    let mut engine = AndroidRecoveryEngine::new("adb");
    let q = DeviceQuery {
        serial: "S1".to_string(),
        model: Some(b"Pixel\n".to_vec()),
        manufacturer: None,
        android_version: Some(b"".to_vec()),
        root_output: Some(b"uid=0".to_vec()),
    };
    let devices = engine.detect_devices(&[q]);
    assert_eq!(devices.len(), 1);
    assert_eq!(devices[0].serial, "S1");
    assert_eq!(devices[0].model, "Pixel");
    assert_eq!(devices[0].manufacturer, "Desconocido");
    assert_eq!(devices[0].android_version, "Desconocido");
    assert!(devices[0].is_rooted);
    assert!(!engine.should_stop());
    engine.stop();
    assert!(engine.should_stop());
}

#[test]
fn file_types_by_extension() {
    let engine = AndroidRecoveryEngine::new("adb");
    assert_eq!(engine.detect_android_file_type("IMG_1.JPG"), (FileType::Jpeg, "image/jpeg".to_string()));
    assert_eq!(engine.detect_android_file_type("a.sqlite"), (FileType::Db, "application/x-sqlite3".to_string()));
    assert_eq!(engine.detect_android_file_type("lib.jar"), (FileType::Zip, "application/zip".to_string()));
    assert_eq!(engine.detect_android_file_type("x.bin"), (FileType::AndroidFile, "application/octet-stream".to_string()));
}

#[test]
fn listing_lines() {
    let engine = AndroidRecoveryEngine::new("adb");
    let e = engine
        .parse_file_entry("-rw-rw---- 1 u0 media_rw 2048 2024-01-01 10:00 IMG_1.jpg", "/data/media/0/DCIM")
        .unwrap();
    assert_eq!(e.path, "/data/media/0/DCIM/IMG_1.jpg");
    assert_eq!(e.file_name, "IMG_1.jpg");
    assert_eq!(e.size, 2048);
    assert!(e.is_media);
    assert_eq!(e.recoverability, 950);
    assert!(engine.parse_file_entry("drwxrwx--- 2 u0 media_rw 4096 2024-01-01 10:00 Camera", "/d").is_none());
    assert!(engine.parse_file_entry("-rw-rw---- 1 u0 media_rw 0 2024-01-01 10:00 empty.txt", "/d").is_none());
    let out = b"total 8\n-rw-rw---- 1 u0 g 10 2024-01-01 10:00 a.pdf\n-rw-rw---- 1 u0 g 5 2024-01-01 10:00 ..\n";
    let entries = engine.listing_entries(out, "/x");
    assert_eq!(entries.len(), 1);
    assert_eq!(entries[0].file_type, FileType::Pdf);
}

#[test]
fn partitions_and_databases() {
    let engine = AndroidRecoveryEngine::new("adb");
    let parts = b"major minor  #blocks  name\n\n 179 0 100 200\n 179 1 50 mmcblk0p1\n";
    let mounts = b"/dev/block/dm-0 /data f2fs rw 0 0\ntmpfs /dev tmpfs rw 0 0\n";
    let p = engine.get_partitions(Some(parts), Some(mounts));
    assert_eq!(p.len(), 3);
    assert_eq!(p[0].name, "200");
    assert_eq!(p[0].size, 100 * 1024);
    assert_eq!(p[1].name, "mmcblk0p1");
    assert_eq!(p[1].size, 50 * 1024);
    assert_eq!(p[2].name, "/dev/block/dm-0");
    assert_eq!(p[2].fs_type, "f2fs");
    assert_eq!(p[2].mount_point, Some("/data".to_string()));
    let only = engine.get_partitions(Some(b"major minor  #blocks  name

179 0 15267840 mmcblk0
"), None);
    assert_eq!(only.len(), 1);
    assert_eq!(only[0].name, "mmcblk0");
    assert_eq!(only[0].size, 15267840 * 1024);
    assert_eq!(only[0].mount_point, None);
    let db = database_entry("/data/data/com.whatsapp/databases/msgstore.db", 4096);
    assert_eq!(db.file_name, "msgstore.db");
    assert_eq!(db.file_type, FileType::Db);
    assert_eq!(db.recoverability, 850);
}

#[test]
fn backup_directories() {
    assert_eq!(backup_subdir("/data/media/0/DCIM"), "DCIM");
    assert_eq!(backup_subdir("/data/media/0//data/media/0/x"), "/data/media/0/x".trim_start_matches("/data/media/0/").to_string());
    assert_eq!(backup_subdir("/sdcard/DCIM"), "/sdcard/DCIM");
}

#[test]
fn text_parsers_of_adb_output() {
    let serials = serials_in_text("List of devices attached\nR58M device product:a\nEMU offline\n");
    assert_eq!(serials, vec!["R58M".to_string()]);
    assert_eq!(property_in_text("\t13 \n"), Some("13".to_string()));
    assert_eq!(property_in_text("   "), None);
    assert!(shows_root("uid=0(root)"));
    assert!(!shows_root("uid=10(u0)"));
    assert_eq!(android_type_of_lower("clip.3gp").0, FileType::ThreeGp);
    assert_eq!(android_type_of_lower("notes.txt").1, "text/plain");
    assert_eq!(android_type_of_lower("NOTES.TXT").0, FileType::AndroidFile);
}

#[test]
fn partitions_from_text() {
    // a line counts when its third word, the block count, is a number
    let table = "major minor  #blocks  name\n\n 179 0 15267840 mmcblk0\n 8 0 4096 7\n 179 1 bad p1\n";
    assert!(sizes_fit_in_text(table));
    let parts = partitions_in_text(table, false);
    assert_eq!(parts.len(), 2);
    assert_eq!(parts[0].name, "mmcblk0");
    assert_eq!(parts[0].size, 15267840 * 1024);
    assert_eq!(parts[0].fs_type, "ext4");
    assert!(!parts[0].is_mounted);
    assert_eq!(parts[1].name, "7");
    let mounts = partitions_in_text("/dev/block/dm-0 /data ext4 rw 0 0\ntmpfs /dev tmpfs rw 0 0\n", true);
    assert_eq!(mounts.len(), 1);
    assert_eq!(mounts[0].mount_point, Some("/data".to_string()));
    assert_eq!(mounts[0].fs_type, "ext4");
    assert!(!sizes_fit_in_text("h\n\n 1 2 18014398509481984 5\n"));
    assert!(!sizes_fit_in_text("h\n\n 1 2 18014398509481984 big\n"));
}
