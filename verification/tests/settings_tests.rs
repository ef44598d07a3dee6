use wallscape::settings::{
    autostart_changed, fit_mode_is_valid, Settings, DEFAULT_FAVORITE_ROTATION_INTERVAL_MINUTES,
    MAX_FAVORITE_ROTATION_INTERVAL_MINUTES, MIN_FAVORITE_ROTATION_INTERVAL_MINUTES,
};

#[test]
fn rotation_interval_is_clamped() {
    let low = Settings {
        favorite_rotation_interval_minutes: 0,
        ..Settings::default()
    }
    .normalized();
    assert_eq!(
        low.favorite_rotation_interval_minutes,
        MIN_FAVORITE_ROTATION_INTERVAL_MINUTES
    );

    let high = Settings {
        favorite_rotation_interval_minutes: MAX_FAVORITE_ROTATION_INTERVAL_MINUTES + 1,
        ..Settings::default()
    }
    .normalized();
    assert_eq!(
        high.favorite_rotation_interval_minutes,
        MAX_FAVORITE_ROTATION_INTERVAL_MINUTES
    );
}

#[test]
fn fit_mode_is_normalized() {
    let invalid = Settings {
        default_fit_mode: "invalid".to_string(),
        ..Settings::default()
    }
    .normalized();
    assert_eq!(invalid.default_fit_mode, "fit");

    let valid_fit = Settings {
        default_fit_mode: "fit".to_string(),
        ..Settings::default()
    }
    .normalized();
    assert_eq!(valid_fit.default_fit_mode, "fit");

    let valid_fill = Settings {
        default_fit_mode: "fill".to_string(),
        ..Settings::default()
    }
    .normalized();
    assert_eq!(valid_fill.default_fit_mode, "fill");

    let valid_stretch = Settings {
        default_fit_mode: "stretch".to_string(),
        ..Settings::default()
    }
    .normalized();
    assert_eq!(valid_stretch.default_fit_mode, "stretch");
}

#[test]
fn fps_cap_is_validated() {
    let too_low = Settings {
        default_fps_cap: Some(0),
        ..Settings::default()
    }
    .normalized();
    assert_eq!(too_low.default_fps_cap, None);

    let too_high = Settings {
        default_fps_cap: Some(300),
        ..Settings::default()
    }
    .normalized();
    assert_eq!(too_high.default_fps_cap, None);

    let valid_30 = Settings {
        default_fps_cap: Some(30),
        ..Settings::default()
    }
    .normalized();
    assert_eq!(valid_30.default_fps_cap, Some(30));

    let valid_60 = Settings {
        default_fps_cap: Some(60),
        ..Settings::default()
    }
    .normalized();
    assert_eq!(valid_60.default_fps_cap, Some(60));

    let none = Settings {
        default_fps_cap: None,
        ..Settings::default()
    }
    .normalized();
    assert_eq!(none.default_fps_cap, None);
}

#[test]
fn defaults_enable_every_auto_pause_rule_and_no_rotation() {
    let settings = Settings::default();
    assert!(!settings.favorite_rotation_enabled);
    assert_eq!(
        settings.favorite_rotation_interval_minutes,
        DEFAULT_FAVORITE_ROTATION_INTERVAL_MINUTES
    );
    assert!(!settings.favorite_rotation_on_startup);
    assert!(settings.auto_pause_enabled);
    assert!(settings.auto_pause_on_battery);
    assert!(settings.auto_pause_fullscreen_apps);
    assert!(settings.auto_pause_occluded);
    assert!(settings.auto_pause_remote_session);
    assert!(settings.auto_pause_display_sleep);
    assert_eq!(settings.default_fit_mode, "fit");
    assert_eq!(settings.default_fps_cap, None);
    assert!(settings.close_to_tray);
}

#[test]
fn normalizing_twice_changes_nothing_more() {
    let messy = Settings {
        favorite_rotation_interval_minutes: 5000,
        default_fit_mode: "zoom".to_string(),
        default_fps_cap: Some(500),
        ..Settings::default()
    };
    let once = messy.normalized();
    let twice = once.normalized();
    assert_eq!(once.favorite_rotation_interval_minutes, twice.favorite_rotation_interval_minutes);
    assert_eq!(once.default_fit_mode, twice.default_fit_mode);
    assert_eq!(once.default_fps_cap, twice.default_fps_cap);
}

#[test]
fn fit_modes_and_autostart_changes_are_recognised() {
    assert!(fit_mode_is_valid("fill"));
    assert!(!fit_mode_is_valid("Fill"));
    let on = Settings {
        launch_at_startup: true,
        ..Settings::default()
    };
    assert!(autostart_changed(&Settings::default(), &on));
    assert!(!autostart_changed(&on, &on));
}
