use cheese_core::cache::thumbnail::{ThumbnailCache, ThumbnailSize};
use cheese_core::config::{Config, SortBy, Theme};
use cheese_core::fs::metadata::{format_bytes, format_permissions, is_executable, ExtendedMetadata, MetadataCollector};
use cheese_core::fs::{DirEntry, FileStat, FileTime};
use cheese_core::path::{component_count_of, file_name, join, split_extension, starts_with};
use cheese_core::plugins::PluginCapability;
use cheese_core::security::{validate_symlink_target, Security};
use cheese_core::text::decimal;
use cheese_core::trash::{info_field, read_trash_path, trash_info_text, Trash};
use cheese_core::Error;

#[test]
fn byte_units_and_rounding() {
    assert_eq!(format_bytes(1), "1 B");
    assert_eq!(format_bytes(1023), "1023 B");
    assert_eq!(format_bytes(1536), "1.50 KB");
    assert_eq!(format_bytes(1025), "1.00 KB");
    assert_eq!(format_bytes(1_099_511_627_776), "1.00 TB");
    assert_eq!(format_bytes(1_125_899_906_842_624), "1.00 PB");
    assert_eq!(format_bytes(u64::MAX), "16384.00 PB");
}

#[test]
fn permission_bits() {
    assert_eq!(format_permissions(0), "---------");
    assert_eq!(format_permissions(0o100750), "rwxr-x---");
    assert!(is_executable(0o100));
    assert!(!is_executable(0o644));
}

fn meta(size: u64, permissions: u32, inode: u64) -> ExtendedMetadata {
    let stat = FileStat {
        size,
        modified: FileTime { secs: 0, nanos: 0 },
        is_dir: false,
        is_symlink: false,
        permissions,
        inode,
    };
    ExtendedMetadata {
        entry: DirEntry::from_stat("/x/f", &stat).unwrap(),
        owner: "u".to_string(),
        group: "g".to_string(),
        link_target: None,
        mime_type: "text/plain".to_string(),
        is_executable: false,
        is_readable: true,
        is_writable: true,
    }
}

#[test]
fn extended_metadata_renders() {
    let m = meta(2048, 0o640, 1);
    assert_eq!(m.format_size(), "2.00 KB");
    assert_eq!(m.format_permissions(), "rw-r-----");
    assert_eq!(m.format_modified().len(), 19);
}

#[test]
fn collector_keys_by_inode() {
    let mut c = MetadataCollector::new();
    assert!(c.is_empty());
    c.collect(meta(1, 0, 5));
    c.collect(meta(2, 0, 5));
    c.collect(meta(3, 0, 6));
    assert_eq!(c.len(), 2);
    assert_eq!(c.get(5).unwrap().entry.size, 2);
    assert!(c.get(9).is_none());
    c.clear();
    assert_eq!(c.len(), 0);
}

#[test]
fn path_conventions() {
    assert_eq!(file_name("/a/b.txt"), Some("b.txt".to_string()));
    assert_eq!(file_name("/a/b/"), Some("b".to_string()));
    assert_eq!(file_name("/"), None);
    assert_eq!(file_name("a/.."), None);
    assert_eq!(join("/a", "b"), "/a/b");
    assert_eq!(join("/a/", "b"), "/a/b");
    assert_eq!(join("", "b"), "b");
    assert!(starts_with("/usr/lib/x", "/usr/lib"));
    assert!(!starts_with("/usr/lib64/x", "/usr/lib"));
    assert!(starts_with("/usr/lib", "/usr/lib"));
    assert_eq!(component_count_of("/a//b/"), 3);
    assert_eq!(component_count_of("a/b"), 2);
    assert_eq!(split_extension("x.tar.gz"), ("x.tar".to_string(), Some("gz".to_string())));
    assert_eq!(split_extension(".rc"), (".rc".to_string(), None));
    assert_eq!(split_extension("x."), ("x".to_string(), Some(String::new())));
    assert_eq!(decimal(9070), "9070");
}

#[test]
fn thumbnail_memory_and_location() {
    let mut cache = ThumbnailCache::new("/c".to_string(), 0);
    assert_eq!(cache.cache_capacity(), 100);
    cache.insert("/p.png", ThumbnailSize::Normal, vec![1]);
    cache.insert("/p.png", ThumbnailSize::Large, vec![2]);
    assert_eq!(cache.cache_size(), 2);
    assert!(cache.get("/p.png", ThumbnailSize::Large).is_some());
    cache.remove("/p.png");
    assert_eq!(cache.cache_size(), 0);
    assert!(cache.get("/p.png", ThumbnailSize::Normal).is_none());
    let p = cache.get_thumbnail_path("/home/u/a.png", ThumbnailSize::Large).unwrap();
    assert!(p.starts_with("/c/large/"));
    assert!(p.ends_with(".png"));
    assert_eq!(p.len(), "/c/large/".len() + 64 + 4);
    assert_ne!(p, cache.get_thumbnail_path("/home/u/b.png", ThumbnailSize::Large).unwrap());
    assert_eq!(ThumbnailSize::Normal.directory_name(), "normal");
    let data = cache.create_thumbnail_data(&[], ThumbnailSize::Normal);
    assert_eq!(data.len(), 128 * 128 * 4);
    assert!(ThumbnailCache::is_supported_format("/x/IMG.HEIC"));
    assert!(!ThumbnailCache::is_supported_format("/x/png"));
    cache.clear();
}

#[test]
fn capability_names_round_trip() {
    for c in [
        PluginCapability::FilePreview,
        PluginCapability::ContextMenu,
        PluginCapability::FileOverlay,
        PluginCapability::CustomColumn,
        PluginCapability::SearchProvider,
    ] {
        assert_eq!(PluginCapability::from_str(c.as_str()), Some(c));
    }
    assert_eq!(PluginCapability::from_str("bogus"), None);
}

#[test]
fn safety_checks() {
    let s = Security::new(false);
    assert!(!s.is_selinux_enabled());
    assert!(s.validate_safe_operation_as("/home/u/f", false).is_ok());
    assert_eq!(
        s.validate_safe_operation_as("/etc/x", false),
        Err(Error::PermissionDenied { path: "/etc/x".to_string() })
    );
    assert!(matches!(s.validate_safe_operation_as("/home/u/f", true), Err(Error::InvalidOperation(_))));
    assert!(validate_symlink_target("/l", "/etc/passwd").is_ok());
}

#[test]
fn default_settings() {
    let c = Config::default();
    assert_eq!(c.ui.theme, Theme::Auto);
    assert_eq!(c.navigation.sort_by, SortBy::Name);
    assert_eq!(c.performance.debounce_ms, 150);
    assert_eq!(c.keyboard.trash, "Shift+Delete");
    assert_eq!(c.plugins.enabled, vec!["git-overlay", "archive-preview"]);
}

#[test]
fn trash_names_and_records() {
    let t = Trash::new("/home/u/.local/share");
    assert_eq!(t.files_dir(), "/home/u/.local/share/Trash/files");
    assert_eq!(t.info_dir(), "/home/u/.local/share/Trash/info");
    let existing = vec!["a.txt".to_string(), "a.1.txt".to_string()];
    assert_eq!(t.find_unique_trash_name("b.txt", &existing).unwrap(), "b.txt");
    assert_eq!(t.find_unique_trash_name("a.txt", &existing).unwrap(), "a.2.txt");
    let existing = vec!["README".to_string()];
    assert_eq!(t.find_unique_trash_name("README", &existing).unwrap(), "README.1");
    assert_eq!(
        trash_info_text("/home/u/a.txt", "2024-01-02T03:04:05"),
        "[Trash Info]\nPath=/home/u/a.txt\nDeletionDate=2024-01-02T03:04:05\n"
    );
}

#[test]
fn trash_names_exhausted() {
    let t = Trash::new("/d");
    let mut existing = vec!["n".to_string()];
    for i in 1..9999 {
        existing.push(format!("n.{}", i));
    }
    assert!(matches!(t.find_unique_trash_name("n", &existing), Err(Error::TrashError(_))));
}

#[test]
fn thumbnail_location_from_digest() {
    let cache = ThumbnailCache::new("/c/".to_string(), 0);
    assert_eq!(cache.thumbnail_path_for("ab12", ThumbnailSize::Normal), "/c/normal/ab12.png");
    assert!(ThumbnailCache::is_image_extension_text("webp"));
    assert!(!ThumbnailCache::is_image_extension_text("WEBP"));
    assert!(!ThumbnailCache::is_image_extension_text("txt"));
}

#[test]
fn trash_record_fields() {
    let record = "[Trash Info]\r\nPath=/home/u/a b.txt\r\nDeletionDate=2024-01-02T03:04:05\n";
    assert_eq!(read_trash_path(record), Ok("/home/u/a b.txt".to_string()));
    assert_eq!(info_field(record, "DeletionDate="), Some("2024-01-02T03:04:05".to_string()));
    assert_eq!(info_field("Path=x", "Path="), Some("x".to_string()));
    assert_eq!(info_field("", "Path="), None);
    assert!(matches!(read_trash_path("[Trash Info]\nName=x\n"), Err(Error::TrashError(_))));
}
