use cheese_core::cache::MetadataCache;
use cheese_core::fs::scanner::{is_descendable, ScanWalk, Scanner, BATCH_SIZE};
use cheese_core::fs::watcher::{RawEvent, RawEventKind, WatchEvent, Watcher};
use cheese_core::fs::{symlink_step, validate_path, DirEntry, EntryType, FileStat, FileTime, FileTypeFlags};
use cheese_core::Error;

fn stat(size: u64, secs: i64, inode: u64) -> FileStat {
    FileStat {
        size,
        modified: FileTime { secs, nanos: 0 },
        is_dir: false,
        is_symlink: false,
        permissions: 0o644,
        inode,
    }
}

fn entry(name: &str, inode: u64) -> DirEntry {
    DirEntry::from_stat(&format!("/dir/{}", name), &stat(1, 0, inode)).unwrap()
}

#[test]
fn test_cache_basic_operations() {
    let mut cache = MetadataCache::new(1);
    let e = DirEntry::from_stat("/tmp/x/test.txt", &stat(4, 100, 42)).unwrap();
    cache.insert(e.inode, e.clone(), 0);

    let retrieved = cache.get(e.inode).unwrap();
    assert_eq!(retrieved.path, "/tmp/x/test.txt");

    cache.remove(e.inode);
    assert!(cache.get(e.inode).is_none());
}

#[test]
fn test_cache_invalidation() {
    let mut cache = MetadataCache::new(1);
    let s = stat(4, 100, 42);
    let (e, hit) = cache.get_or_fetch("/tmp/x/test.txt", &s, 0).unwrap();
    assert!(!hit);
    assert_eq!(e.name, "test.txt");
    assert_eq!(cache.len(), 1);

    cache.invalidate(&s);
    assert_eq!(cache.len(), 0);
}

#[test]
fn fresh_fetch_then_hit_then_miss_on_change() {
    let mut cache = MetadataCache::default();
    let s = stat(10, 5, 7);
    let (_, hit) = cache.get_or_fetch("/a/f", &s, 1).unwrap();
    assert!(!hit);
    let (e, hit) = cache.get_or_fetch("/a/renamed", &s, 2).unwrap();
    assert!(hit);
    assert_eq!(e.path, "/a/f");
    let grown = stat(11, 5, 7);
    let (e, hit) = cache.get_or_fetch("/a/f", &grown, 3).unwrap();
    assert!(!hit);
    assert_eq!(e.size, 11);
    let touched = stat(11, 6, 7);
    let (e, hit) = cache.get_or_fetch("/a/f", &touched, 4).unwrap();
    assert!(!hit);
    assert_eq!(e.modified, FileTime { secs: 6, nanos: 0 });
    assert_eq!(cache.len(), 1);
}

#[test]
fn cache_capacity_floor_and_budget() {
    assert_eq!(MetadataCache::new(0).capacity(), 10000);
    assert_eq!(MetadataCache::new(1).capacity(), 10082);
    assert!(MetadataCache::new(0).is_empty());
}

#[test]
fn cache_evicts_least_recently_used() {
    let mut cache = MetadataCache::new(0);
    for i in 0..10000u64 {
        cache.insert(i, entry("f", i), i);
    }
    assert_eq!(cache.len(), 10000);
    assert!(cache.get(0).is_some());
    cache.insert(20000, entry("g", 20000), 1);
    assert_eq!(cache.len(), 10000);
    assert!(cache.get(0).is_some());
    assert!(cache.get(1).is_none());
}

#[test]
fn cache_invalidates_directory_by_components() {
    let mut cache = MetadataCache::new(0);
    cache.insert(1, DirEntry::from_stat("/home/u/docs/a", &stat(1, 0, 1)).unwrap(), 0);
    cache.insert(2, DirEntry::from_stat("/home/u/docs", &stat(1, 0, 2)).unwrap(), 0);
    cache.insert(3, DirEntry::from_stat("/home/u/docs2/b", &stat(1, 0, 3)).unwrap(), 0);
    cache.invalidate_directory("/home/u/docs");
    assert_eq!(cache.len(), 1);
    assert!(cache.get(3).is_some());
    cache.clear();
    assert!(cache.is_empty());
}

#[test]
fn fetch_of_path_without_name_fails() {
    let mut cache = MetadataCache::new(0);
    let r = cache.get_or_fetch("/", &stat(0, 0, 2), 0);
    assert_eq!(r.unwrap_err(), Error::InvalidPath { path: "/".to_string() });
}

#[test]
fn scan_filters_hidden_and_batches() {
    let scanner = Scanner::default();
    let mut b = scanner.batcher(false);
    let mut batches = Vec::new();
    for i in 0..250u64 {
        let name = if i % 5 == 0 { format!(".h{}", i) } else { format!("f{}", i) };
        if let Some(batch) = b.offer(entry(&name, i)) {
            batches.push(batch);
        }
    }
    batches.push(b.finish());
    assert_eq!(batches.len(), 2 + 1);
    assert_eq!(batches[0].entries.len(), BATCH_SIZE);
    assert_eq!(batches[0].total_count, 100);
    assert!(!batches[0].is_complete);
    assert!(batches[2].is_complete);
    assert_eq!(batches[2].total_count, 200);
    let all: Vec<&DirEntry> = batches.iter().flat_map(|b| b.entries.iter()).collect();
    assert_eq!(all.len(), 200);
    assert!(all.iter().all(|e| !e.is_hidden()));
    assert_eq!(batches.iter().filter(|b| b.is_complete).count(), 1);
}

#[test]
fn scan_of_empty_directory_sends_one_complete_batch() {
    let mut b = Scanner::new(false, 4, true).batcher(false);
    let last = b.finish();
    assert!(last.is_complete);
    assert!(last.entries.is_empty());
    assert_eq!(last.total_count, 0);
}

#[test]
fn scan_exact_multiple_still_ends_complete() {
    let mut b = Scanner::new(false, 4, true).batcher(false);
    let mut sent = 0;
    for i in 0..100u64 {
        if b.offer(entry(&format!(".x{}", i), i)).is_some() {
            sent += 1;
        }
    }
    assert_eq!(sent, 1);
    let last = b.finish();
    assert!(last.is_complete && last.entries.is_empty());
    assert_eq!(last.total_count, 100);
}

#[test]
fn rescan_yields_same_set() {
    let names = ["b", ".c", "a", "d"];
    let collect = |order: &[usize]| {
        let mut b = Scanner::default().batcher(false);
        for &i in order {
            b.offer(entry(names[i], i as u64));
        }
        let mut v: Vec<String> = b.finish().entries.into_iter().map(|e| e.name).collect();
        v.sort();
        v
    };
    assert_eq!(collect(&[0, 1, 2, 3]), collect(&[3, 2, 1, 0]));
    assert_eq!(collect(&[0, 1, 2, 3]), vec!["a", "b", "d"]);
}

#[test]
fn recursive_walk_prunes_at_depth() {
    let mut walk = ScanWalk::new("/r", 2);
    let (d, depth) = walk.next_dir().unwrap();
    assert_eq!((d.as_str(), depth), ("/r", 0));
    walk.descend(vec!["/r/a".to_string(), "/r/b".to_string()], depth);
    let (d, depth) = walk.next_dir().unwrap();
    assert_eq!((d.as_str(), depth), ("/r/b", 1));
    walk.descend(vec!["/r/b/c".to_string()], depth);
    let (d, _) = walk.next_dir().unwrap();
    assert_eq!(d, "/r/a");
    assert!(walk.next_dir().is_none());
    let mut none = ScanWalk::new("/r", 0);
    assert!(none.next_dir().is_none());
}

#[test]
fn recursive_batches_flush_before_descending() {
    let mut b = Scanner::default().batcher(true);
    assert!(b.offer(entry("sub", 1)).is_none());
    let flushed = b.flush().unwrap();
    assert_eq!(flushed.entries.len(), 1);
    assert_eq!(flushed.total_count, 0);
    assert!(!flushed.is_complete);
    assert!(b.flush().is_none());
    assert!(b.finish().is_complete);
}

#[test]
fn descend_only_into_real_directories() {
    let mut s = stat(0, 0, 1);
    s.is_dir = true;
    let d = DirEntry::from_stat("/r/d", &s).unwrap();
    assert!(is_descendable(&d));
    s.is_symlink = true;
    let l = DirEntry::from_stat("/r/l", &s).unwrap();
    assert!(!is_descendable(&l));
}

#[test]
fn root_checks() {
    assert_eq!(validate_path("/nope", false), Err(Error::NotFound { path: "/nope".to_string() }));
    assert!(validate_path("/tmp", true).is_ok());
    let deep = "/a".repeat(255);
    assert!(validate_path(&deep, true).is_ok());
    let deeper = "/a".repeat(256);
    assert_eq!(validate_path(&deeper, true), Err(Error::InvalidPath { path: deeper.clone() }));
    assert_eq!(symlink_step("/l", 0, 2, false), Ok(false));
    assert_eq!(symlink_step("/l", 1, 2, true), Ok(true));
    assert_eq!(symlink_step("/l", 2, 2, true), Err(Error::SymlinkLoop { path: "/l".to_string() }));
}

#[test]
fn entry_kinds_and_names() {
    let flags = FileTypeFlags {
        is_file: false,
        is_dir: false,
        is_symlink: true,
        is_block_device: true,
        is_char_device: false,
        is_fifo: false,
        is_socket: false,
    };
    assert_eq!(EntryType::from_flags(&flags), EntryType::Symlink);
    let e = DirEntry::from_stat("/x/Photo.JPG", &stat(1, 0, 1)).unwrap();
    assert_eq!(e.extension(), Some("jpg".to_string()));
    assert_eq!(e.mime_type(), "image/jpeg");
    let n = DirEntry::from_stat("/x/README", &stat(1, 0, 1)).unwrap();
    assert_eq!(n.extension(), None);
    assert_eq!(n.mime_type(), "application/octet-stream");
    let h = DirEntry::from_stat("/x/.profile/", &stat(1, 0, 1)).unwrap();
    assert_eq!(h.name, ".profile");
    assert!(h.is_hidden());
}

fn raw(kind: RawEventKind, paths: &[&str]) -> RawEvent {
    RawEvent { kind, paths: paths.iter().map(|s| s.to_string()).collect() }
}

#[test]
fn debounce_drops_event_inside_window() {
    let mut w = Watcher::default();
    w.start();
    let first = w.convert_event(&raw(RawEventKind::Modify, &["/d/f"]), 1000);
    assert!(matches!(first, Some(WatchEvent::Modified(ref p)) if p == "/d/f"));
    assert!(w.convert_event(&raw(RawEventKind::Modify, &["/d/f"]), 1049).is_none());
    assert!(w.convert_event(&raw(RawEventKind::Modify, &["/d/g"]), 1049).is_some());
}

#[test]
fn debounce_passes_events_beyond_window() {
    let mut w = Watcher::new(50);
    assert!(w.convert_event(&raw(RawEventKind::Create, &["/d/f"]), 1000).is_some());
    assert!(w.convert_event(&raw(RawEventKind::Modify, &["/d/f"]), 1051).is_some());
    assert!(w.convert_event(&raw(RawEventKind::Remove, &["/d/f"]), 1101).is_some());
}

#[test]
fn events_translate_by_kind() {
    let mut w = Watcher::new(0);
    assert!(matches!(w.convert_event(&raw(RawEventKind::Create, &["/a"]), 0), Some(WatchEvent::Created(_))));
    assert!(matches!(w.convert_event(&raw(RawEventKind::Remove, &["/b"]), 0), Some(WatchEvent::Deleted(_))));
    assert!(matches!(w.convert_event(&raw(RawEventKind::RenameFrom, &["/c"]), 0), Some(WatchEvent::Deleted(_))));
    assert!(matches!(w.convert_event(&raw(RawEventKind::RenameTo, &["/d"]), 0), Some(WatchEvent::Created(_))));
    match w.convert_event(&raw(RawEventKind::RenameBoth, &["/e", "/f"]), 0) {
        Some(WatchEvent::Renamed { from, to }) => assert_eq!((from.as_str(), to.as_str()), ("/e", "/f")),
        _ => panic!("expected a rename"),
    }
    assert!(w.convert_event(&raw(RawEventKind::RenameBoth, &["/g"]), 0).is_none());
    assert!(w.convert_event(&raw(RawEventKind::Other, &["/h"]), 0).is_none());
    assert!(w.convert_event(&raw(RawEventKind::Create, &[]), 0).is_none());
}

#[test]
fn watched_set_needs_start_and_clears_on_stop() {
    let mut w = Watcher::default();
    assert_eq!(w.watch("/d"), Err(Error::Watcher("Watcher not started".to_string())));
    w.start();
    w.watch("/d").unwrap();
    w.watch("/d").unwrap();
    w.watch("/e").unwrap();
    assert_eq!(w.watched_count(), 2);
    assert!(w.is_watching("/d"));
    w.unwatch("/d").unwrap();
    assert!(!w.is_watching("/d"));
    w.stop();
    assert_eq!(w.watched_count(), 0);
    assert!(w.unwatch("/e").is_err());
}
