use wallscape::db::Wallpaper;
use wallscape::import_scan::ImportScan;
use wallscape::importing::{
    decode_thumbnail_data_url, selected_import_path, thumbnail_extension, thumbnail_file_name,
};
use wallscape::library::{
    broken_wallpaper_reason, can_restore_saved_path, detect_broken_wallpapers, is_cached_source,
    library_id_check, pick_rotation_wallpaper, pick_rotation_wallpaper_at,
    previous_restore_check, wallpaper_not_found, FileProbe,
};

fn wallpaper(id: i64, file_path: &str) -> Wallpaper {
    Wallpaper {
        id,
        title: format!("Wallpaper {id}"),
        file_path: file_path.to_string(),
        thumbnail_path: None,
        tags: Vec::new(),
        width: 1920,
        height: 1080,
        fps: 0,
        duration_ms: 0,
        file_size_bytes: 0,
        created_at: id,
        media_type: "image".to_string(),
        source: None,
        source_id: None,
        is_favorite: true,
    }
}

fn probe_ok() -> FileProbe {
    FileProbe { exists: true, is_file: true, open_error: None }
}

#[test]
fn rotation_skips_current_wallpaper_when_another_favorite_exists() {
    let selected = pick_rotation_wallpaper(
        vec![wallpaper(1, "current.jpg"), wallpaper(2, "next.jpg")],
        Some("current.jpg"),
    );

    assert_eq!(selected.file_path, "next.jpg");
}

#[test]
fn rotation_can_reuse_current_wallpaper_when_it_is_the_only_favorite() {
    let selected = pick_rotation_wallpaper(vec![wallpaper(1, "current.jpg")], Some("current.jpg"));

    assert_eq!(selected.file_path, "current.jpg");
}

#[test]
fn rotation_index_follows_the_clock() {
    let favorites = || {
        vec![
            wallpaper(1, "a.jpg"),
            wallpaper(2, "current.jpg"),
            wallpaper(3, "b.jpg"),
            wallpaper(4, "c.jpg"),
        ]
    };
    assert_eq!(pick_rotation_wallpaper_at(favorites(), Some("current.jpg"), 0).file_path, "a.jpg");
    assert_eq!(pick_rotation_wallpaper_at(favorites(), Some("current.jpg"), 4).file_path, "b.jpg");
    assert_eq!(pick_rotation_wallpaper_at(favorites(), Some("current.jpg"), 8).file_path, "c.jpg");
    assert_eq!(pick_rotation_wallpaper_at(favorites(), None, 1).file_path, "current.jpg");
}

#[test]
fn scan_rejects_empty_selection() {
    let selection: Vec<String> = Vec::new();
    let error = ImportScan::start(selection.len()).expect_err("empty selection should fail");

    assert_eq!(error, "No files or folders were selected");
}

#[test]
fn scan_keeps_supported_files_sorted_and_reports_the_rest() {
    let mut scan = ImportScan::start(3).expect("a selection was made");
    scan.visit("C:/w/b.png".to_string(), true, true, false);
    scan.visit("C:/w/a.jpg".to_string(), true, true, true);
    scan.visit("C:/w/a.jpg".to_string(), true, true, true);
    scan.visit("C:/w/notes.txt".to_string(), true, true, true);
    scan.visit("C:/w/readme.txt".to_string(), true, true, false);
    scan.visit("C:/w/gone.jpg".to_string(), false, false, false);
    scan.folder_unreadable("C:/locked".to_string(), "access denied");
    let result = scan.finish();
    assert_eq!(result.files, vec!["C:/w/a.jpg", "C:/w/b.png"]);
    let reasons: Vec<(&str, &str)> = result
        .rejected
        .iter()
        .map(|r| (r.path.as_str(), r.reason.as_str()))
        .collect();
    assert_eq!(
        reasons,
        vec![
            ("C:/w/readme.txt", "Unsupported wallpaper format"),
            ("C:/w/gone.jpg", "Path does not exist"),
            ("C:/locked", "Failed to read folder: access denied"),
        ]
    );
}

#[test]
fn normalize_import_path_rejects_blank_selection() {
    let error = selected_import_path("   ").expect_err("blank path should fail");
    assert_eq!(error, "No video file was selected");
    assert_eq!(selected_import_path("  C:/v.mp4 ").as_deref(), Ok("C:/v.mp4"));
}

#[test]
fn decode_thumbnail_data_url_accepts_supported_mime() {
    let (mime, bytes) = decode_thumbnail_data_url("data:image/png;base64,aGVsbG8=")
        .expect("png data URL should decode");

    assert_eq!(mime, "image/png");
    assert_eq!(bytes, b"hello");
}

#[test]
fn decode_thumbnail_data_url_rejects_unsupported_mime() {
    let error = decode_thumbnail_data_url("data:text/plain;base64,aGVsbG8=")
        .expect_err("text data URL should be rejected");

    assert_eq!(error, "Generated thumbnail used an unsupported image format.");
}

#[test]
fn decode_thumbnail_data_url_reports_bad_base64() {
    let error = decode_thumbnail_data_url("data:image/jpeg;base64,@@@")
        .expect_err("invalid base64 should be rejected");
    assert!(error.starts_with("Failed to decode generated thumbnail: "));
}

#[test]
fn thumbnails_are_named_by_type() {
    assert_eq!(thumbnail_extension("image/jpeg"), Some("jpg"));
    assert_eq!(thumbnail_extension("image/webp"), Some("webp"));
    assert_eq!(thumbnail_extension("image/gif"), None);
    assert_eq!(thumbnail_file_name(12, 3, "png"), "thumbnail-12-3.png");
}

#[test]
fn broken_wallpapers_are_reported_with_their_reason() {
    let missing = FileProbe { exists: false, is_file: false, open_error: None };
    let locked = FileProbe {
        exists: true,
        is_file: true,
        open_error: Some("denied".to_string()),
    };
    assert_eq!(
        broken_wallpaper_reason(&wallpaper(1, "C:/a.jpg"), &missing).as_deref(),
        Some("File is missing")
    );
    assert_eq!(
        broken_wallpaper_reason(&wallpaper(1, "C:/a.jpg"), &locked).as_deref(),
        Some("File cannot be opened: denied")
    );
    assert_eq!(
        broken_wallpaper_reason(&wallpaper(1, "C:/a.gif"), &probe_ok()).as_deref(),
        Some("Wallpaper format is no longer supported")
    );
    assert_eq!(broken_wallpaper_reason(&wallpaper(1, "C:/a.jpg"), &probe_ok()), None);

    let found = detect_broken_wallpapers(
        vec![wallpaper(1, "C:/a.jpg"), wallpaper(2, "C:/b.jpg")],
        &vec![probe_ok(), missing],
    );
    assert_eq!(found.len(), 1);
    assert_eq!(found[0].wallpaper.id, 2);
    assert_eq!(found[0].reason, "File is missing");
}

#[test]
fn restore_checks_need_a_saved_existing_file() {
    assert!(can_restore_saved_path(Some("C:/a.jpg"), true));
    assert!(!can_restore_saved_path(Some("C:/a.jpg"), false));
    assert!(!can_restore_saved_path(None, true));
    assert_eq!(
        previous_restore_check(None, true),
        Err("No previous wallpaper has been saved yet".to_string())
    );
    assert_eq!(
        previous_restore_check(Some("C:/old.jpg"), false),
        Err("Previous wallpaper file no longer exists: C:/old.jpg".to_string())
    );
    assert_eq!(previous_restore_check(Some("C:/old.jpg"), true), Ok(()));
}

#[test]
fn library_ids_and_sources_are_checked() {
    assert!(is_cached_source(Some("wallhaven")));
    assert!(is_cached_source(Some("motionbgs")));
    assert!(!is_cached_source(Some("local")));
    assert!(!is_cached_source(None));
    assert_eq!(library_id_check(3, "Cannot remove"), Ok(()));
    assert_eq!(library_id_check(0, "Cannot remove"), Err("Cannot remove".to_string()));
    assert_eq!(wallpaper_not_found(-7), "Wallpaper -7 was not found");
}
