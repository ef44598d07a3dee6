use wallscape::db::{
    duplicate_of_latest, fallback_media_type, fallback_title, history_query_limit,
    latest_distinct_before, record_from_wallpaper, search_pattern, tags_from_json, tags_to_json,
    Wallpaper, WallpaperHistoryEntry,
};
use wallscape::storage::{
    cleanup_result, is_missing_library_entry, missing_entries_result, storage_stats,
    thumbnail_used_paths, unused_app_cache_files, wallhaven_used_paths, CacheFile, CacheScan,
    RemoveOutcome,
};

fn wallpaper(id: i64, title: &str, file_path: &str, thumbnail: Option<&str>, source: Option<&str>) -> Wallpaper {
    Wallpaper {
        id,
        title: title.to_string(),
        file_path: file_path.to_string(),
        thumbnail_path: thumbnail.map(str::to_string),
        tags: Vec::new(),
        width: 1920,
        height: 1080,
        fps: 60,
        duration_ms: 10_000,
        file_size_bytes: 0,
        created_at: id,
        media_type: "video".to_string(),
        source: source.map(str::to_string),
        source_id: source.map(|_| "abc123".to_string()),
        is_favorite: false,
    }
}

fn file(path: &str, bytes: i64) -> CacheFile {
    CacheFile {
        path: path.to_string(),
        bytes,
        canonical: Some(path.to_string()),
    }
}

fn canonical(paths: Vec<String>) -> Vec<Option<String>> {
    paths.into_iter().map(Some).collect()
}

#[test]
fn stats_count_cache_files_unused_files_and_missing_entries() {
    let root = "/data";
    let wallpapers = vec![
        wallpaper(1, "Wallhaven", "/data/wallhaven/abc123.jpg", Some("/data/thumbnails/used.jpg"), Some("wallhaven")),
        wallpaper(2, "Missing", "/data/missing.mp4", None, None),
        wallpaper(3, "Local", "/data/local.mp4", None, None),
    ];
    let wallhaven = CacheScan {
        root: Some(format!("{root}/wallhaven")),
        files: vec![file("/data/wallhaven/abc123.jpg", 9), file("/data/wallhaven/orphan.jpg", 6)],
        used: canonical(wallhaven_used_paths(&wallpapers)),
    };
    let thumbnails = CacheScan {
        root: Some(format!("{root}/thumbnails")),
        files: vec![file("/data/thumbnails/used.jpg", 4), file("/data/thumbnails/unused.jpg", 6)],
        used: canonical(thumbnail_used_paths(&wallpapers)),
    };
    let stats = storage_stats(&wallhaven, &thumbnails, &wallpapers, &vec![false, true, false]);

    assert_eq!(stats.wallhaven_cache_files, 2);
    assert_eq!(stats.wallhaven_cache_bytes, 15);
    assert_eq!(stats.unused_wallhaven_cache_files, 1);
    assert_eq!(stats.unused_wallhaven_cache_bytes, 6);
    assert_eq!(stats.thumbnail_cache_files, 2);
    assert_eq!(stats.unused_thumbnail_files, 1);
    assert_eq!(stats.unused_thumbnail_bytes, 6);
    assert_eq!(stats.wallhaven_library_entries, 1);
    assert_eq!(stats.missing_library_entries, 1);
    assert_eq!(stats.total_cache_bytes, 25);
}

#[test]
fn cleanup_keeps_files_the_library_uses() {
    let wallpapers = vec![wallpaper(1, "Saved", "/data/wallhaven/saved.jpg", None, Some("wallhaven"))];
    let files = vec![file("/data/wallhaven/saved.jpg", 5), file("/data/wallhaven/orphan.jpg", 6)];
    let unused = unused_app_cache_files(
        Some("/data/wallhaven"),
        &canonical(wallhaven_used_paths(&wallpapers)),
        &files,
    );
    assert_eq!(unused.len(), 1);
    assert_eq!(unused[0].path, "/data/wallhaven/orphan.jpg");
    assert!(unused_app_cache_files(None, &Vec::new(), &files).is_empty());

    let result = cleanup_result(&unused, &vec![RemoveOutcome::Removed]);
    assert_eq!(result.removed_files, 1);
    assert_eq!(result.removed_bytes, 6);
    assert_eq!(result.removed_entries, 0);
    assert!(result.warnings.is_empty());
}

#[test]
fn failed_removals_are_reported_and_not_counted() {
    let files = vec![file("/c/a.jpg", 3), file("/c/b.jpg", 4), file("/c/c.jpg", 5)];
    let result = cleanup_result(
        &files,
        &vec![
            RemoveOutcome::Removed,
            RemoveOutcome::NotFound,
            RemoveOutcome::Failed("access denied".to_string()),
        ],
    );
    assert_eq!(result.removed_files, 1);
    assert_eq!(result.removed_bytes, 3);
    assert_eq!(result.warnings, vec!["Failed to remove '/c/c.jpg': access denied"]);
}

#[test]
fn missing_entries_are_counted() {
    assert!(is_missing_library_entry(false, false, false));
    assert!(is_missing_library_entry(true, true, false));
    assert!(!is_missing_library_entry(true, true, true));
    let result = missing_entries_result(1);
    assert_eq!(result.removed_entries, 1);
    assert_eq!(result.removed_files, 0);
}

fn entry(id: i64, file_path: &str, target: Option<&str>) -> WallpaperHistoryEntry {
    WallpaperHistoryEntry {
        id,
        wallpaper_id: None,
        title: file_path.to_string(),
        file_path: file_path.to_string(),
        thumbnail_path: None,
        media_type: "image".to_string(),
        target_monitor_id: target.map(str::to_string),
        apply_source: "manual".to_string(),
        applied_at: id,
    }
}

#[test]
fn history_records_and_previous_distinct_entries() {
    let record = record_from_wallpaper(None, "C:/w/forest.png", Some("DISPLAY1"), "tray_history");
    assert_eq!(record.title, "forest");
    assert_eq!(record.media_type, "image");
    assert_eq!(record.target_monitor_id.as_deref(), Some("DISPLAY1"));
    assert_eq!(record.apply_source, "tray_history");

    let known = wallpaper(7, "Forest", "C:/w/forest.mp4", None, None);
    let record = record_from_wallpaper(Some(known), "C:/other.mp4", None, "manual");
    assert_eq!(record.wallpaper_id, Some(7));
    assert_eq!(record.title, "Forest");
    assert_eq!(record.file_path, "C:/w/forest.mp4");

    let latest = entry(5, "C:\\w\\forest.mp4", None);
    assert_eq!(duplicate_of_latest(Some(&latest), &record), Some(5));
    let elsewhere = record_from_wallpaper(None, "C:/w/forest.mp4", Some("DISPLAY2"), "manual");
    assert_eq!(duplicate_of_latest(Some(&latest), &elsewhere), None);
    assert_eq!(duplicate_of_latest(None, &record), None);

    let entries = vec![
        entry(3, "C:/w/now.jpg", None),
        entry(2, "c:\\w\\NOW.jpg", None),
        entry(1, "C:/w/before.jpg", None),
    ];
    let previous = latest_distinct_before(entries, Some("C:/w/now.jpg")).expect("an earlier file");
    assert_eq!(previous.id, 1);
    assert!(latest_distinct_before(vec![entry(1, "C:/w/now.jpg", None)], Some("C:/w/now.jpg")).is_none());
}

#[test]
fn fallbacks_and_limits() {
    assert_eq!(fallback_title("C:/w/loop.mp4"), "loop");
    assert_eq!(fallback_media_type("C:/w/still.JPG"), "image");
    assert_eq!(fallback_media_type("C:/w/loop.mp4"), "video");
    assert_eq!(fallback_media_type("C:/w/noext"), "video");
    assert_eq!(history_query_limit(0), 1);
    assert_eq!(history_query_limit(1000), 100);
    assert_eq!(history_query_limit(50), 50);
    assert_eq!(search_pattern("sea"), "%sea%");
}

#[test]
fn tags_are_stored_as_json() {
    let tags = vec!["local".to_string(), "imported".to_string(), "mp4".to_string()];
    let json = tags_to_json(&tags);
    assert_eq!(json, r#"["local","imported","mp4"]"#);
    assert_eq!(tags_from_json(&json), tags);
    assert!(tags_from_json("not json").is_empty());
    assert!(tags_from_json(r#"{"a":1}"#).is_empty());
}
