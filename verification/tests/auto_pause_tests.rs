use wallscape::auto_pause::{
    all_monitors_occluded, covers_monitor, desired_auto_pause, is_desktop_shell_class,
    should_auto_pause, AutoPauseSnapshot, Rect, WindowSample,
};
use wallscape::settings::Settings;

#[test]
fn auto_pause_requires_master_toggle() {
    let settings = Settings {
        auto_pause_enabled: false,
        auto_pause_on_battery: true,
        ..Settings::default()
    };

    assert!(!should_auto_pause(
        &settings,
        AutoPauseSnapshot {
            on_battery: true,
            ..Default::default()
        }
    ));
}

#[test]
fn auto_pause_uses_enabled_rules_only() {
    let settings = Settings {
        auto_pause_enabled: true,
        auto_pause_on_battery: false,
        auto_pause_fullscreen_apps: true,
        auto_pause_remote_session: false,
        auto_pause_display_sleep: false,
        ..Settings::default()
    };

    assert!(!should_auto_pause(
        &settings,
        AutoPauseSnapshot {
            on_battery: true,
            ..Default::default()
        }
    ));
    assert!(should_auto_pause(
        &settings,
        AutoPauseSnapshot {
            fullscreen_app: true,
            ..Default::default()
        }
    ));
}

#[test]
fn auto_pause_respects_occlusion_rule() {
    let settings = Settings {
        auto_pause_enabled: true,
        auto_pause_on_battery: false,
        auto_pause_fullscreen_apps: false,
        auto_pause_occluded: true,
        auto_pause_remote_session: false,
        auto_pause_display_sleep: false,
        ..Settings::default()
    };

    assert!(should_auto_pause(
        &settings,
        AutoPauseSnapshot {
            desktop_occluded: true,
            ..Default::default()
        }
    ));

    let disabled = Settings {
        auto_pause_occluded: false,
        ..settings
    };
    assert!(!should_auto_pause(
        &disabled,
        AutoPauseSnapshot {
            desktop_occluded: true,
            ..Default::default()
        }
    ));
}

#[test]
fn fullscreen_window_must_cover_monitor() {
    let monitor = Rect {
        left: 0,
        top: 0,
        right: 1920,
        bottom: 1080,
    };

    assert!(covers_monitor(monitor, monitor));
    assert!(!covers_monitor(
        Rect {
            left: 10,
            top: 0,
            right: 1920,
            bottom: 1080,
        },
        monitor,
    ));
}

#[test]
fn desktop_shell_windows_are_not_fullscreen_apps() {
    assert!(is_desktop_shell_class("Progman"));
    assert!(is_desktop_shell_class("WorkerW"));
    assert!(!is_desktop_shell_class("Chrome_WidgetWin_1"));
}

#[test]
fn auto_pause_is_only_wanted_while_a_wallpaper_runs() {
    let settings = Settings {
        auto_pause_enabled: true,
        auto_pause_on_battery: true,
        ..Settings::default()
    };
    let snapshot = AutoPauseSnapshot {
        on_battery: true,
        ..Default::default()
    };
    assert!(desired_auto_pause(&settings, true, snapshot));
    assert!(!desired_auto_pause(&settings, false, snapshot));
}

#[test]
fn two_windows_side_by_side_occlude_a_monitor() {
    let monitor = Rect { left: 0, top: 0, right: 1920, bottom: 1080 };
    let left = Rect { left: 0, top: 0, right: 960, bottom: 1080 };
    let right = Rect { left: 960, top: 0, right: 1920, bottom: 1080 };
    let window = |rect: Rect, class: &str| WindowSample {
        visible: true,
        minimized: false,
        click_through: false,
        cloaked: false,
        own_process: false,
        class_name: class.to_string(),
        rect: Some(rect),
    };
    let both = vec![window(left, "Notepad"), window(right, "Notepad")];
    assert!(all_monitors_occluded(&both, &vec![monitor]));
    let one = vec![window(left, "Notepad")];
    assert!(!all_monitors_occluded(&one, &vec![monitor]));
    let shell = vec![window(monitor, "WorkerW")];
    assert!(!all_monitors_occluded(&shell, &vec![monitor]));
}
