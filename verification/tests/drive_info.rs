use recoverpill::drive_info::volume_label;
use recoverpill::access::{device_path, geometry_ex_size, geometry_size, volume_extent_size, volume_root_path};
use recoverpill::drive_info::{drive_letters, get_removable_drives, DriveInfo, DriveType};
use recoverpill::ui::format_size;

#[test]
fn test_drive_info_format() {
    assert_eq!(DriveInfo::format_size(1024), "1.00 KB");
    assert_eq!(DriveInfo::format_size(1048576), "1.00 MB");
    assert_eq!(DriveInfo::format_size(1073741824), "1.00 GB");
}

fn float_format(bytes: u64, tb: bool, unit_bytes: &str) -> String {
    const KB: u64 = 1024;
    const MB: u64 = KB * 1024;
    const GB: u64 = MB * 1024;
    const TB: u64 = GB * 1024;
    if tb && bytes >= TB {
        format!("{:.2} TB", bytes as f64 / TB as f64)
    } else if bytes >= GB {
        format!("{:.2} GB", bytes as f64 / GB as f64)
    } else if bytes >= MB {
        format!("{:.2} MB", bytes as f64 / MB as f64)
    } else if bytes >= KB {
        format!("{:.2} KB", bytes as f64 / KB as f64)
    } else {
        format!("{}{}", bytes, unit_bytes)
    }
}

#[test]
fn sizes_match_float_formatting() {
    let samples: Vec<u64> = vec![
        0, 1, 1023, 1024, 1152, 1160, 1535, 1536, 10_000, 1_048_575, 1_048_576, 5_368_709_120,
        1_099_511_627_775, 1_099_511_627_776, 123_456_789_012_345, u64::MAX, (1u64 << 53) + 1,
        (1u64 << 60) + 12345, 9_007_199_254_740_993, 3_000_000_000,
    ];
    for b in samples {
        assert_eq!(DriveInfo::format_size(b), float_format(b, true, " bytes"), "bytes {}", b);
        assert_eq!(format_size(b), float_format(b, false, " B"), "bytes {}", b);
    }
    let mut x: u64 = 1;
    for _ in 0..2000 {
        x = x.wrapping_mul(6364136223846793005).wrapping_add(1442695040888963407);
        for shift in [0u32, 10, 20, 24, 30, 34, 40, 44, 50] {
            let b = x >> shift;
            assert_eq!(DriveInfo::format_size(b), float_format(b, true, " bytes"), "bytes {}", b);
        }
    }
}

#[test]
fn ties_round_to_even() {
    // 1152 bytes are exactly 1.125 KB
    assert_eq!(DriveInfo::format_size(1152), float_format(1152, true, " bytes"));
    assert_eq!(DriveInfo::format_size(512), "512 bytes");
    assert_eq!(format_size(512), "512 B");
}

#[test]
fn drive_types_from_codes() {
    assert_eq!(DriveType::from_winapi(2), DriveType::Removable);
    assert_eq!(DriveType::from_winapi(3), DriveType::Fixed);
    assert_eq!(DriveType::from_winapi(99), DriveType::Unknown);
    assert_eq!(DriveType::Removable.display_name(), "Extraíble (USB/SD)");
}

#[test]
fn drives_from_letters() {
    assert!(DriveInfo::from_drive_letter('C', DriveType::Unknown, 10, 5, "x".to_string()).is_none());
    let d = DriveInfo::from_drive_letter('E', DriveType::Removable, 100, 130, "USB".to_string()).unwrap();
    assert_eq!(d.path, "E:");
    assert_eq!(d.used_bytes, 0);
    let d = DriveInfo::from_drive_letter('D', DriveType::Fixed, 100, 30, "Data".to_string()).unwrap();
    assert_eq!(d.used_bytes, 70);
    assert_eq!(drive_letters(0b101), vec!['A', 'C']);
    let removable = get_removable_drives(vec![
        DriveInfo::from_drive_letter('D', DriveType::Fixed, 1, 0, String::new()).unwrap(),
        DriveInfo::from_drive_letter('E', DriveType::Removable, 1, 0, String::new()).unwrap(),
    ]);
    assert_eq!(removable.len(), 1);
    assert_eq!(removable[0].path, "E:");
}

#[test]
fn volume_labels() {
    let mut buf = [0u16; 261];
    for (i, u) in "DATOS".encode_utf16().enumerate() {
        buf[i] = u;
    }
    assert_eq!(volume_label(&buf, true), "DATOS");
    assert_eq!(volume_label(&buf, false), "Sin etiqueta");
    let odd = [0x41u16, 0xD800, 0x42, 0xD83D, 0xDE00, 0];
    assert_eq!(volume_label(&odd, true), "A\u{FFFD}B\u{1F600}");
}

#[test]
fn device_paths_and_geometry() {
    assert_eq!(device_path("C:"), r"\\.\C:");
    assert_eq!(device_path(r"C:\"), r"\\.\C:");
    assert_eq!(device_path(r"\\.\PhysicalDrive0"), r"\\.\PhysicalDrive0");
    assert_eq!(device_path("PhysicalDrive1"), r"\\.\PhysicalDrive1");
    assert_eq!(volume_root_path("C:"), r"C:\");
    assert_eq!(volume_root_path(r"D:\"), r"D:\");
    let mut ex = [0u8; 32];
    ex[..8].copy_from_slice(&977u64.to_le_bytes()); // cylinders
    ex[24..].copy_from_slice(&1_000_000u64.to_le_bytes()); // DiskSize
    assert_eq!(geometry_ex_size(&ex, true, 32), Some(1_000_000));
    assert_eq!(geometry_ex_size(&ex, true, 16), None);
    let mut g = [0u8; 64];
    g[8..12].copy_from_slice(&512u32.to_le_bytes());
    g[12..16].copy_from_slice(&63u32.to_le_bytes());
    g[16..20].copy_from_slice(&1000u32.to_le_bytes());
    g[20..24].copy_from_slice(&2u32.to_le_bytes());
    assert_eq!(geometry_size(&g, true, 32), Some(512 * 63 * 1000 * 2));
    assert_eq!(geometry_size(&g, false, 32), None);
    let mut v = [0u8; 64];
    v[0] = 1;
    v[16..24].copy_from_slice(&4096u64.to_le_bytes());
    assert_eq!(volume_extent_size(&v, true, 32), Some(4096));
    v[0] = 0;
    assert_eq!(volume_extent_size(&v, true, 32), None);
}
