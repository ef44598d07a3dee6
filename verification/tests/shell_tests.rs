use wallscape::desktop_wallpaper::{
    current_wallpaper_from, monitor_rect_matches, requested_monitor_id,
    resolve_desktop_monitor_path, wide_text_len,
};
use wallscape::diagnostic::{
    antivirus_from, build_number_from, detect_wallpaper_apps_in, diagnostic_info,
    is_desktop_related_class, os_version_from, wallpaper_apps_in, WindowInfo,
};
use wallscape::display::Monitor;
use wallscape::auto_pause::Rect;
use wallscape::shell::{encode_wide, explorer_select_parameters, shell_execute_outcome};
use wallscape::tray::{
    find_history_entry, pause_menu_label, toggle_main_window_action, tray_history_id_from_menu_id,
    tray_history_menu_id, tray_history_menu_label, tray_menu_action, TrayMenuAction, WindowToggle,
};
use wallscape::db::WallpaperHistoryEntry;

#[test]
fn tray_history_menu_id_round_trips() {
    let id = tray_history_menu_id(42);
    assert_eq!(tray_history_id_from_menu_id(&id), Some(42));
    assert_eq!(tray_history_id_from_menu_id("history:invalid"), None);
}

#[test]
fn tray_history_label_marks_monitor_specific_entries() {
    assert_eq!(tray_history_menu_label("Forest", None), "Forest");
    assert_eq!(
        tray_history_menu_label("Forest", Some("monitor-1")),
        "Forest (Display)"
    );
}

#[test]
fn tray_history_ids_cover_the_whole_range() {
    for id in [0, -1, 7, i64::MAX, i64::MIN] {
        let menu_id = tray_history_menu_id(id);
        assert_eq!(menu_id, format!("history:{id}"));
        assert_eq!(tray_history_id_from_menu_id(&menu_id), Some(id));
    }
    assert_eq!(tray_history_id_from_menu_id("history:+5"), Some(5));
    assert_eq!(tray_history_id_from_menu_id("history:"), None);
    assert_eq!(tray_history_id_from_menu_id("historyx:5"), None);
    assert_eq!(tray_history_id_from_menu_id("history:99999999999999999999"), None);
}

#[test]
fn tray_menu_items_ask_for_their_action() {
    assert_eq!(tray_menu_action("show"), TrayMenuAction::ShowWindow);
    assert_eq!(tray_menu_action("toggle_pause"), TrayMenuAction::TogglePause);
    assert_eq!(tray_menu_action("next_favorite"), TrayMenuAction::NextFavorite);
    assert_eq!(tray_menu_action("restore"), TrayMenuAction::RestoreOriginal);
    assert_eq!(tray_menu_action("quit"), TrayMenuAction::Quit);
    assert_eq!(tray_menu_action("history:12"), TrayMenuAction::ApplyHistory(12));
    assert_eq!(tray_menu_action("history:oops"), TrayMenuAction::Ignore);
    assert_eq!(tray_menu_action("unknown"), TrayMenuAction::Ignore);
    assert_eq!(pause_menu_label(true), "Resume wallpaper");
    assert_eq!(pause_menu_label(false), "Pause wallpaper");
    assert_eq!(toggle_main_window_action(true, false), WindowToggle::Hide);
    assert_eq!(toggle_main_window_action(true, true), WindowToggle::Reveal);
    assert_eq!(toggle_main_window_action(false, false), WindowToggle::Reveal);
}

#[test]
fn tray_finds_the_clicked_history_entry() {
    let entry = |id: i64, path: &str| WallpaperHistoryEntry {
        id,
        wallpaper_id: None,
        title: path.to_string(),
        file_path: path.to_string(),
        thumbnail_path: None,
        media_type: "image".to_string(),
        target_monitor_id: None,
        apply_source: "manual".to_string(),
        applied_at: id,
    };
    let entries = vec![entry(3, "c.jpg"), entry(2, "b.jpg"), entry(1, "a.jpg")];
    assert_eq!(find_history_entry(entries.clone(), 2).map(|e| e.file_path), Some("b.jpg".to_string()));
    assert!(find_history_entry(entries, 9).is_none());
}

#[test]
fn wide_strings_end_with_nul_and_use_surrogate_pairs() {
    assert_eq!(encode_wide("ab"), vec![0x61, 0x62, 0]);
    assert_eq!(encode_wide(""), vec![0]);
    let emoji = "\u{1F600}";
    let mut expected: Vec<u16> = emoji.encode_utf16().collect();
    expected.push(0);
    assert_eq!(encode_wide(emoji), expected);
    assert_eq!(encode_wide("é"), vec![0xE9, 0]);
}

#[test]
fn explorer_selects_the_quoted_path() {
    assert_eq!(
        explorer_select_parameters("C:\\Wallscape\\a.mp4"),
        "/select,\"C:\\Wallscape\\a.mp4\""
    );
    assert_eq!(shell_execute_outcome(42, "failed"), Ok(()));
    assert_eq!(shell_execute_outcome(32, "failed"), Err("failed".to_string()));
    assert_eq!(shell_execute_outcome(2, "failed"), Err("failed".to_string()));
}

#[test]
fn system_wallpaper_values_are_read_and_checked() {
    assert_eq!(wide_text_len(&[0x43, 0x3A, 0, 0x41]), 2);
    assert_eq!(wide_text_len(&[0x43, 0x3A]), 2);
    assert_eq!(current_wallpaper_from("  C:\\bg.jpg \n").as_deref(), Some("C:\\bg.jpg"));
    assert_eq!(current_wallpaper_from("   "), None);
    assert_eq!(requested_monitor_id(" DISPLAY1 ").as_deref(), Ok("DISPLAY1"));
    assert_eq!(
        requested_monitor_id("  "),
        Err("Monitor id cannot be empty".to_string())
    );
}

fn monitor(id: &str, x: i32, y: i32, width: i32, height: i32) -> Monitor {
    Monitor {
        id: id.to_string(),
        name: id.to_string(),
        x,
        y,
        width,
        height,
        is_primary: false,
    }
}

#[test]
fn desktop_monitor_path_is_found_by_its_rectangle() {
    let monitors = vec![
        monitor("DISPLAY1", 0, 0, 1920, 1080),
        monitor("DISPLAY2", 1920, 0, 2560, 1440),
    ];
    let rect = |left: i32, top: i32, right: i32, bottom: i32| Rect { left, top, right, bottom };
    assert!(monitor_rect_matches(&monitors[1], rect(1920, 0, 4480, 1440)));
    assert!(!monitor_rect_matches(&monitors[1], rect(1920, 0, 4480, 1441)));
    let paths = vec![
        ("path-a".to_string(), None),
        ("path-b".to_string(), Some(rect(0, 0, 1920, 1080))),
        ("path-c".to_string(), Some(rect(1920, 0, 4480, 1440))),
    ];
    assert_eq!(
        resolve_desktop_monitor_path("DISPLAY2", false, &monitors, &paths),
        Ok("path-c".to_string())
    );
    assert_eq!(
        resolve_desktop_monitor_path("path-x", true, &monitors, &paths),
        Ok("path-x".to_string())
    );
    assert_eq!(
        resolve_desktop_monitor_path("DISPLAY9", false, &monitors, &paths),
        Err("Monitor 'DISPLAY9' was not found".to_string())
    );
    assert_eq!(
        resolve_desktop_monitor_path("DISPLAY2", false, &monitors, &paths[..2].to_vec()),
        Err("Monitor 'DISPLAY2' was not found in Windows desktop wallpaper service".to_string())
    );
}

#[test]
fn diagnostic_values_are_read_from_command_output() {
    assert_eq!(os_version_from(Some("\r\nMicrosoft Windows [Version 10.0.22631]\r\n")), "Microsoft Windows [Version 10.0.22631]");
    assert_eq!(os_version_from(None), "Unknown");
    assert_eq!(build_number_from(Some("\r\n\r\nBuildNumber=22631\r\n\r\n")), "22631");
    assert_eq!(build_number_from(Some("nothing here")), "Unknown");
    assert_eq!(build_number_from(None), "Unknown");
    assert_eq!(antivirus_from(Some("  Windows Defender \r\n")), None);
    assert_eq!(antivirus_from(Some("Avast Antivirus\n")).as_deref(), Some("Avast Antivirus"));
    assert_eq!(antivirus_from(Some("   ")), None);
    assert_eq!(antivirus_from(None), None);
}

#[test]
fn wallpaper_programs_are_spotted_in_the_process_list() {
    let tasklist = "\"explorer.exe\",\"1\"\n\"LIVELY.EXE\",\"2\"\n\"Wallpaper64.exe\",\"3\"\n";
    assert_eq!(detect_wallpaper_apps_in(tasklist), vec!["wallpaper64.exe", "lively.exe"]);
    assert_eq!(wallpaper_apps_in("rainwallpaper.exe"), vec!["RainWallpaper.exe"]);
    assert!(wallpaper_apps_in("explorer.exe").is_empty());
}

#[test]
fn diagnostic_report_counts_desktop_windows() {
    let window = |class: &str| WindowInfo {
        hwnd: "HWND(0x1)".to_string(),
        class_name: class.to_string(),
        title: String::new(),
        visible: true,
    };
    assert!(is_desktop_related_class("WorkerW"));
    assert!(is_desktop_related_class("SHELLDLL_DefView"));
    assert!(!is_desktop_related_class("Notepad"));
    let info = diagnostic_info(
        "Windows".to_string(),
        "22631".to_string(),
        vec![window("WorkerW"), window("Progman"), window("WorkerW"), window("SHELLDLL_DefView")],
        Vec::new(),
        None,
    );
    assert_eq!(info.workerw_count, 2);
    assert!(info.progman_found);
    let empty = diagnostic_info(String::new(), String::new(), Vec::new(), Vec::new(), None);
    assert_eq!(empty.workerw_count, 0);
    assert!(!empty.progman_found);
}
