use wallscape::db::WallpaperHistoryEntry;
use wallscape::history::{history_list_limit, same_wallpaper_path, select_undo_target};

fn history_entry(id: i64, file_path: &str, target_monitor_id: Option<&str>) -> WallpaperHistoryEntry {
    WallpaperHistoryEntry {
        id,
        wallpaper_id: Some(id),
        title: format!("Wallpaper {id}"),
        file_path: file_path.to_string(),
        thumbnail_path: None,
        media_type: "image".to_string(),
        target_monitor_id: target_monitor_id.map(str::to_string),
        apply_source: "manual".to_string(),
        applied_at: id,
    }
}

fn all_valid(entries: &[WallpaperHistoryEntry]) -> Vec<bool> {
    vec![true; entries.len()]
}

#[test]
fn same_wallpaper_path_ignores_windows_separator_differences() {
    assert!(same_wallpaper_path(
        Some("C:/Wallpapers/one.jpg"),
        "C:\\Wallpapers\\one.jpg",
    ));
}

#[test]
fn undo_monitor_apply_uses_prior_entry_that_affected_same_monitor() {
    let entries = vec![
        history_entry(3, "C:/wallpapers/city.jpg", Some("monitor-2")),
        history_entry(2, "C:/wallpapers/forest.jpg", Some("monitor-1")),
        history_entry(1, "C:/wallpapers/original.jpg", None),
    ];

    let target = select_undo_target(&entries, &all_valid(&entries))
        .expect("undo target should be selected");

    assert_eq!(target.entry.file_path, "C:/wallpapers/original.jpg");
    assert_eq!(target.monitor_id.as_deref(), Some("monitor-2"));
}

#[test]
fn undo_monitor_apply_prefers_prior_same_monitor_entry() {
    let entries = vec![
        history_entry(3, "C:/wallpapers/city.jpg", Some("monitor-2")),
        history_entry(2, "C:/wallpapers/forest.jpg", Some("monitor-2")),
        history_entry(1, "C:/wallpapers/original.jpg", None),
    ];

    let target = select_undo_target(&entries, &all_valid(&entries))
        .expect("undo target should be selected");

    assert_eq!(target.entry.file_path, "C:/wallpapers/forest.jpg");
    assert_eq!(target.monitor_id.as_deref(), Some("monitor-2"));
}

#[test]
fn undo_all_monitor_apply_ignores_monitor_specific_entries() {
    let entries = vec![
        history_entry(4, "C:/wallpapers/global-new.jpg", None),
        history_entry(3, "C:/wallpapers/monitor-two.jpg", Some("monitor-2")),
        history_entry(2, "C:/wallpapers/monitor-one.jpg", Some("monitor-1")),
        history_entry(1, "C:/wallpapers/global-old.jpg", None),
    ];

    let target = select_undo_target(&entries, &all_valid(&entries))
        .expect("undo target should be selected");

    assert_eq!(target.entry.file_path, "C:/wallpapers/global-old.jpg");
    assert_eq!(target.monitor_id, None);
}

#[test]
fn undo_skips_entries_whose_file_is_gone_or_is_the_current_one() {
    let entries = vec![
        history_entry(4, "C:/wallpapers/now.jpg", None),
        history_entry(3, "C:\\WALLPAPERS\\now.jpg", None),
        history_entry(2, "C:/wallpapers/deleted.jpg", None),
        history_entry(1, "C:/wallpapers/kept.jpg", None),
    ];
    let valid = vec![true, true, false, true];
    let target = select_undo_target(&entries, &valid).expect("an older entry remains");
    assert_eq!(target.entry.id, 1);

    let nothing = vec![true, true, false, false];
    assert!(select_undo_target(&entries, &nothing).is_none());
    assert!(select_undo_target(&[][..].to_vec(), &Vec::new()).is_none());
}

#[test]
fn history_listing_limit_defaults_and_clamps() {
    assert_eq!(history_list_limit(None), 12);
    assert_eq!(history_list_limit(Some(0)), 1);
    assert_eq!(history_list_limit(Some(7)), 7);
    assert_eq!(history_list_limit(Some(500)), 50);
}

#[test]
fn absent_path_matches_nothing() {
    assert!(!same_wallpaper_path(None, "C:/a.jpg"));
    assert!(!same_wallpaper_path(Some("C:/a.jpg"), "C:/b.jpg"));
}
