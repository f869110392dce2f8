use cheese_core::cache::thumbnail::{ThumbnailCache, ThumbnailSize};
use cheese_core::fs::metadata::{format_bytes, format_permissions};
use cheese_core::plugins::api::{Capability, PluginInfo, API_VERSION};
use cheese_core::security::is_system_path;

#[test]
fn test_thumbnail_size() {
    assert_eq!(ThumbnailSize::Normal.pixels(), 128);
    assert_eq!(ThumbnailSize::Large.pixels(), 256);
}

#[test]
fn test_supported_format() {
    assert!(ThumbnailCache::is_supported_format("test.png"));
    assert!(ThumbnailCache::is_supported_format("test.jpg"));
    assert!(!ThumbnailCache::is_supported_format("test.txt"));
}

#[test]
fn test_thumbnail_cache_creation() {
    let cache = ThumbnailCache::new("/tmp/thumbnails".to_string(), 64);
    assert_eq!(cache.cache_capacity(), 256);
    assert_eq!(cache.cache_size(), 0);
}

#[test]
fn test_cache_insert_and_get() {
    let mut cache = ThumbnailCache::new("/tmp/thumbnails".to_string(), 64);
    let path = "/tmp/test.png";
    let data = vec![1, 2, 3, 4];

    cache.insert(path, ThumbnailSize::Normal, data.clone());
    let retrieved = cache.get(path, ThumbnailSize::Normal);

    assert_eq!(retrieved, Some(data));
}

#[test]
fn test_format_bytes() {
    assert_eq!(format_bytes(0), "0 B");
    assert_eq!(format_bytes(1024), "1.00 KB");
    assert_eq!(format_bytes(1048576), "1.00 MB");
    assert_eq!(format_bytes(1073741824), "1.00 GB");
}

#[test]
fn test_format_permissions() {
    assert_eq!(format_permissions(0o755), "rwxr-xr-x");
    assert_eq!(format_permissions(0o644), "rw-r--r--");
    assert_eq!(format_permissions(0o777), "rwxrwxrwx");
}

struct TestPlugin;

impl TestPlugin {
    fn info(&self) -> PluginInfo {
        PluginInfo {
            api_version: API_VERSION,
            name: "Test Plugin".to_string(),
            version: "1.0.0".to_string(),
            description: "Test plugin".to_string(),
            author: "Test Author".to_string(),
            capabilities: vec![Capability::FilePreview],
        }
    }
}

#[test]
fn test_plugin_info() {
    let plugin = TestPlugin;
    let info = plugin.info();
    assert_eq!(info.name, "Test Plugin");
    assert_eq!(info.api_version, API_VERSION);
}

#[test]
fn test_system_path_detection() {
    assert!(is_system_path("/bin/ls"));
    assert!(is_system_path("/etc/passwd"));
    assert!(!is_system_path("/home/user/file.txt"));
    assert!(!is_system_path("/tmp/test"));
}
