use wallscape::display::{placements_for_monitors, Monitor};
use wallscape::lifecycle::{
    assignments_for_target, assignments_json, has_original_wallpaper_backup,
    is_wallscape_tracked_wallpaper, parse_assignments, previous_path_candidate,
    same_wallpaper_path, MonitorAssignments,
};
use wallscape::media::{
    is_supported_image_path, is_supported_static_image_path, is_supported_wallpaper_path,
};
use wallscape::runtime::WallpaperTarget;

fn monitor(id: &str, x: i32, y: i32, width: i32, height: i32) -> Monitor {
    Monitor {
        id: id.to_string(),
        name: id.to_string(),
        x,
        y,
        width,
        height,
        is_primary: x == 0 && y == 0,
    }
}

fn assignments(pairs: &[(&str, &str)]) -> MonitorAssignments {
    MonitorAssignments::from_pairs(
        pairs
            .iter()
            .map(|(k, v)| (k.to_string(), v.to_string()))
            .collect(),
    )
}

#[test]
fn all_monitor_placement_uses_one_slot_per_monitor() {
    let monitors = vec![
        monitor("\\\\.\\DISPLAY1", 0, 0, 1920, 1080),
        monitor("\\\\.\\DISPLAY2", 1920, 0, 1920, 1080),
    ];

    let placements = placements_for_monitors(&monitors).expect("monitors should map");

    assert_eq!(placements.len(), 2);
    assert_eq!(placements[0].slot, "\\\\.\\DISPLAY1");
    assert_eq!((placements[0].x, placements[0].y), (0, 0));
    assert_eq!((placements[0].width, placements[0].height), (1920, 1080));
    assert_eq!(placements[1].slot, "\\\\.\\DISPLAY2");
    assert_eq!((placements[1].x, placements[1].y), (1920, 0));
    assert_eq!((placements[1].width, placements[1].height), (1920, 1080));
}

#[test]
fn all_monitor_placement_preserves_negative_monitor_origins() {
    let monitors = vec![
        monitor("\\\\.\\DISPLAY1", 0, 0, 2560, 1440),
        monitor("\\\\.\\DISPLAY2", -1920, 180, 1920, 1080),
    ];

    let placements = placements_for_monitors(&monitors).expect("monitors should map");

    assert_eq!(placements[1].slot, "\\\\.\\DISPLAY2");
    assert_eq!((placements[1].x, placements[1].y), (-1920, 180));
    assert_eq!((placements[1].width, placements[1].height), (1920, 1080));
}

#[test]
fn all_monitor_placement_rejects_empty_monitor_list() {
    let error = placements_for_monitors(&[]).expect_err("empty monitor list should fail");

    assert!(error.to_string().contains("No monitors were detected"));
}

#[test]
fn gif_path_detection_is_unsupported() {
    let path = "C:/wallpapers/Loop.GIF";
    assert!(!is_supported_image_path(path));
    assert!(!is_supported_static_image_path(path));
    assert!(!is_supported_wallpaper_path(path));
}

#[test]
fn image_path_detection_rejects_unknown_extensions() {
    assert!(!is_supported_image_path("C:/wallpapers/Forest.mp4"));
}

#[test]
fn previous_path_candidate_ignores_empty_or_identical_paths() {
    assert_eq!(previous_path_candidate(None, "next"), None);
    assert_eq!(previous_path_candidate(Some(" ".to_string()), "next"), None);
    assert_eq!(
        previous_path_candidate(Some("C:/same.jpg".to_string()), "C:/same.jpg"),
        None,
    );
}

#[test]
fn previous_path_candidate_keeps_different_current_path() {
    assert_eq!(
        previous_path_candidate(Some("C:/old.jpg".to_string()), "C:/new.jpg"),
        Some("C:/old.jpg".to_string()),
    );
}

#[test]
fn original_backup_exists_for_any_non_blank_saved_path() {
    assert!(has_original_wallpaper_backup(Some("C:/missing-original.jpg")));
    assert!(has_original_wallpaper_backup(Some("C:/wallpapers/original.jpg")));
    assert!(!has_original_wallpaper_backup(Some("")));
    assert!(!has_original_wallpaper_backup(Some("   ")));
    assert!(!has_original_wallpaper_backup(None));
}

#[test]
fn same_wallpaper_path_treats_windows_separators_as_equivalent() {
    assert!(same_wallpaper_path(
        "C:/Users/me/Pictures/wallpaper.jpg",
        "C:\\Users\\me\\Pictures\\wallpaper.jpg"
    ));
}

#[test]
fn wallscape_tracked_wallpaper_detects_last_wallpaper_path() {
    assert!(is_wallscape_tracked_wallpaper(
        "C:/Wallscape/applied.jpg",
        Some("C:\\Wallscape\\applied.jpg"),
        &Vec::new(),
        &Vec::new(),
    ));
}

#[test]
fn wallscape_tracked_wallpaper_detects_library_wallpaper_path() {
    assert!(is_wallscape_tracked_wallpaper(
        "C:/Wallscape/library-wallpaper.jpg",
        None,
        &vec!["C:\\Wallscape\\library-wallpaper.jpg".to_string()],
        &Vec::new(),
    ));
    assert!(!is_wallscape_tracked_wallpaper(
        "C:/Users/me/Pictures/own.jpg",
        Some("C:\\Wallscape\\applied.jpg"),
        &vec!["C:\\Wallscape\\library-wallpaper.jpg".to_string()],
        &Vec::new(),
    ));
}

#[test]
fn parse_accepts_monitor_assignment_map() {
    let assignments = parse_assignments(r#"{"DISPLAY1":"C:\\Wallscape\\loop.mp4"}"#)
        .expect("assignment JSON should parse");

    assert_eq!(assignments.get("DISPLAY1"), Some("C:\\Wallscape\\loop.mp4"));
}

#[test]
fn parse_rejects_invalid_assignment_json() {
    let error = parse_assignments("not-json").expect_err("invalid JSON should fail");

    assert!(error.contains("Failed to parse monitor wallpaper assignments"));
}

#[test]
fn monitor_assignment_keeps_retained_all_display_slots() {
    let retained = assignments(&[
        ("DISPLAY1", "C:\\Wallscape\\ambient.mp4"),
        ("DISPLAY2", "C:\\Wallscape\\ambient.mp4"),
    ]);

    let result = assignments_for_target(
        &WallpaperTarget::Monitor("DISPLAY1".to_string()),
        "C:\\Wallscape\\focus.mp4",
        MonitorAssignments::new(),
        &retained,
    )
    .expect("monitor target should persist assignments");

    assert_eq!(result.get("DISPLAY1"), Some("C:\\Wallscape\\focus.mp4"));
    assert_eq!(result.get("DISPLAY2"), Some("C:\\Wallscape\\ambient.mp4"));
}

#[test]
fn monitor_assignment_prefers_existing_assignments_over_retained_defaults() {
    let current = assignments(&[("DISPLAY2", "C:\\Wallscape\\existing.mp4")]);
    let retained = assignments(&[("DISPLAY2", "C:\\Wallscape\\ambient.mp4")]);

    let result = assignments_for_target(
        &WallpaperTarget::Monitor("DISPLAY1".to_string()),
        "C:\\Wallscape\\focus.mp4",
        current,
        &retained,
    )
    .expect("monitor target should persist assignments");

    assert_eq!(result.get("DISPLAY1"), Some("C:\\Wallscape\\focus.mp4"));
    assert_eq!(result.get("DISPLAY2"), Some("C:\\Wallscape\\existing.mp4"));
}

#[test]
fn all_target_clears_assignments() {
    let current = assignments(&[("DISPLAY1", "C:\\Wallscape\\focus.mp4")]);

    assert!(assignments_for_target(
        &WallpaperTarget::All,
        "C:\\Wallscape\\ambient.mp4",
        current,
        &MonitorAssignments::new()
    )
    .is_none());
}

#[test]
fn stored_assignments_read_back_the_same() {
    let original = assignments(&[
        ("DISPLAY2", "C:\\Wallscape\\b.mp4"),
        ("DISPLAY1", "C:\\Wallscape\\a.mp4"),
    ]);
    let json = assignments_json(&original).expect("assignments serialize");
    assert_eq!(json, r#"{"DISPLAY1":"C:\\Wallscape\\a.mp4","DISPLAY2":"C:\\Wallscape\\b.mp4"}"#);
    let back = parse_assignments(&json).expect("written JSON parses");
    assert_eq!(back.get("DISPLAY1"), Some("C:\\Wallscape\\a.mp4"));
    assert_eq!(back.get("DISPLAY2"), Some("C:\\Wallscape\\b.mp4"));
}
