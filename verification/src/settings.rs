//! User settings and their normalization.
//!
//! The default playback speed is a floating-point setting and is kept beside these
//! by the application; every other setting lives here.
use crate::text;
use vstd::prelude::*;

verus! {

pub const SETTINGS_KEY: &'static str = "app_settings";

pub const LAST_WALLPAPER_KEY: &'static str = "last_wallpaper_path";

pub const PREVIOUS_WALLPAPER_KEY: &'static str = "previous_wallpaper_path";

pub const DEFAULT_FAVORITE_ROTATION_INTERVAL_MINUTES: u32 = 30;

pub const MIN_FAVORITE_ROTATION_INTERVAL_MINUTES: u32 = 1;

pub const MAX_FAVORITE_ROTATION_INTERVAL_MINUTES: u32 = 1440;

/// The user's quality-of-life settings.
#[derive(Debug, Clone)]
pub struct Settings {
    pub launch_at_startup: bool,
    pub start_minimized: bool,
    pub close_to_tray: bool,
    pub minimize_to_tray: bool,
    pub restore_last_wallpaper: bool,
    pub favorite_rotation_enabled: bool,
    pub favorite_rotation_interval_minutes: u32,
    pub favorite_rotation_on_startup: bool,
    pub auto_pause_enabled: bool,
    pub auto_pause_on_battery: bool,
    pub auto_pause_fullscreen_apps: bool,
    pub auto_pause_occluded: bool,
    pub auto_pause_remote_session: bool,
    pub auto_pause_display_sleep: bool,
    /// `fit`, `fill` or `stretch`.
    pub default_fit_mode: String,
    /// Frames per second, 1 to 240; `None` leaves playback uncapped.
    pub default_fps_cap: Option<u32>,
}

/// The plain content of the settings.
pub struct SettingsView {
    pub launch_at_startup: bool,
    pub start_minimized: bool,
    pub close_to_tray: bool,
    pub minimize_to_tray: bool,
    pub restore_last_wallpaper: bool,
    pub favorite_rotation_enabled: bool,
    pub favorite_rotation_interval_minutes: u32,
    pub favorite_rotation_on_startup: bool,
    pub auto_pause_enabled: bool,
    pub auto_pause_on_battery: bool,
    pub auto_pause_fullscreen_apps: bool,
    pub auto_pause_occluded: bool,
    pub auto_pause_remote_session: bool,
    pub auto_pause_display_sleep: bool,
    pub default_fit_mode: Seq<char>,
    pub default_fps_cap: Option<u32>,
}

impl Settings {
    pub open spec fn view(&self) -> SettingsView {
        SettingsView {
            launch_at_startup: self.launch_at_startup,
            start_minimized: self.start_minimized,
            close_to_tray: self.close_to_tray,
            minimize_to_tray: self.minimize_to_tray,
            restore_last_wallpaper: self.restore_last_wallpaper,
            favorite_rotation_enabled: self.favorite_rotation_enabled,
            favorite_rotation_interval_minutes: self.favorite_rotation_interval_minutes,
            favorite_rotation_on_startup: self.favorite_rotation_on_startup,
            auto_pause_enabled: self.auto_pause_enabled,
            auto_pause_on_battery: self.auto_pause_on_battery,
            auto_pause_fullscreen_apps: self.auto_pause_fullscreen_apps,
            auto_pause_occluded: self.auto_pause_occluded,
            auto_pause_remote_session: self.auto_pause_remote_session,
            auto_pause_display_sleep: self.auto_pause_display_sleep,
            default_fit_mode: self.default_fit_mode@,
            default_fps_cap: self.default_fps_cap,
        }
    }
}

/// The settings a new installation starts with.
pub open spec fn default_settings() -> SettingsView {
    SettingsView {
        launch_at_startup: false,
        start_minimized: false,
        close_to_tray: true,
        minimize_to_tray: false,
        restore_last_wallpaper: true,
        favorite_rotation_enabled: false,
        favorite_rotation_interval_minutes: DEFAULT_FAVORITE_ROTATION_INTERVAL_MINUTES,
        favorite_rotation_on_startup: false,
        auto_pause_enabled: true,
        auto_pause_on_battery: true,
        auto_pause_fullscreen_apps: true,
        auto_pause_occluded: true,
        auto_pause_remote_session: true,
        auto_pause_display_sleep: true,
        default_fit_mode: "fit"@,
        default_fps_cap: None,
    }
}

impl Default for Settings {
    fn default() -> (r: Settings)
        ensures
            r.view() == default_settings(),
    {
        Settings {
            launch_at_startup: false,
            start_minimized: false,
            close_to_tray: true,
            minimize_to_tray: false,
            restore_last_wallpaper: true,
            favorite_rotation_enabled: false,
            favorite_rotation_interval_minutes: DEFAULT_FAVORITE_ROTATION_INTERVAL_MINUTES,
            favorite_rotation_on_startup: false,
            auto_pause_enabled: true,
            auto_pause_on_battery: true,
            auto_pause_fullscreen_apps: true,
            auto_pause_occluded: true,
            auto_pause_remote_session: true,
            auto_pause_display_sleep: true,
            default_fit_mode: text::owned("fit"),
            default_fps_cap: None,
        }
    }
}

pub open spec fn is_fit_mode(mode: Seq<char>) -> bool {
    mode == "fit"@ || mode == "fill"@ || mode == "stretch"@
}

pub open spec fn clamp_interval(minutes: u32) -> u32 {
    if minutes < MIN_FAVORITE_ROTATION_INTERVAL_MINUTES {
        MIN_FAVORITE_ROTATION_INTERVAL_MINUTES
    } else if minutes > MAX_FAVORITE_ROTATION_INTERVAL_MINUTES {
        MAX_FAVORITE_ROTATION_INTERVAL_MINUTES
    } else {
        minutes
    }
}

pub open spec fn valid_fps_cap(cap: Option<u32>) -> Option<u32> {
    match cap {
        Some(fps) => if 1 <= fps <= 240 {
            Some(fps)
        } else {
            None
        },
        None => None,
    }
}

/// The settings with every value brought into its range: the rotation interval
/// clamped to 1..=1440 minutes, an unknown fit mode replaced by `fit`, and an FPS cap
/// outside 1..=240 dropped. The flags are kept.
pub open spec fn normalized_view(s: SettingsView) -> SettingsView {
    SettingsView {
        favorite_rotation_interval_minutes: clamp_interval(s.favorite_rotation_interval_minutes),
        default_fit_mode: if is_fit_mode(s.default_fit_mode) {
            s.default_fit_mode
        } else {
            "fit"@
        },
        default_fps_cap: valid_fps_cap(s.default_fps_cap),
        ..s
    }
}

/// Settings whose values are all in range.
pub open spec fn settings_valid(s: SettingsView) -> bool {
    &&& MIN_FAVORITE_ROTATION_INTERVAL_MINUTES <= s.favorite_rotation_interval_minutes
        <= MAX_FAVORITE_ROTATION_INTERVAL_MINUTES
    &&& is_fit_mode(s.default_fit_mode)
    &&& s.default_fps_cap matches Some(fps) ==> 1 <= fps <= 240
}

pub fn fit_mode_is_valid(mode: &str) -> (r: bool)
    ensures
        r == is_fit_mode(mode@),
{
    let m = text::chars_of(mode);
    text::chars_eq_str(m.as_slice(), "fit") || text::chars_eq_str(m.as_slice(), "fill")
        || text::chars_eq_str(m.as_slice(), "stretch")
}

impl Settings {
    pub fn normalized(&self) -> (r: Settings)
        ensures
            r.view() == normalized_view(self.view()),
    {
        let interval = if self.favorite_rotation_interval_minutes < MIN_FAVORITE_ROTATION_INTERVAL_MINUTES {
            MIN_FAVORITE_ROTATION_INTERVAL_MINUTES
        } else if self.favorite_rotation_interval_minutes > MAX_FAVORITE_ROTATION_INTERVAL_MINUTES {
            MAX_FAVORITE_ROTATION_INTERVAL_MINUTES
        } else {
            self.favorite_rotation_interval_minutes
        };
        let fit_mode = if fit_mode_is_valid(self.default_fit_mode.as_str()) {
            text::owned(self.default_fit_mode.as_str())
        } else {
            text::owned("fit")
        };
        let fps_cap = match self.default_fps_cap {
            Some(fps) => if 1 <= fps && fps <= 240 {
                Some(fps)
            } else {
                None
            },
            None => None,
        };
        Settings {
            launch_at_startup: self.launch_at_startup,
            start_minimized: self.start_minimized,
            close_to_tray: self.close_to_tray,
            minimize_to_tray: self.minimize_to_tray,
            restore_last_wallpaper: self.restore_last_wallpaper,
            favorite_rotation_enabled: self.favorite_rotation_enabled,
            favorite_rotation_interval_minutes: interval,
            favorite_rotation_on_startup: self.favorite_rotation_on_startup,
            auto_pause_enabled: self.auto_pause_enabled,
            auto_pause_on_battery: self.auto_pause_on_battery,
            auto_pause_fullscreen_apps: self.auto_pause_fullscreen_apps,
            auto_pause_occluded: self.auto_pause_occluded,
            auto_pause_remote_session: self.auto_pause_remote_session,
            auto_pause_display_sleep: self.auto_pause_display_sleep,
            default_fit_mode: fit_mode,
            default_fps_cap: fps_cap,
        }
    }
}

/// Normalized settings are valid, normalizing them again changes nothing, and valid
/// settings are left as they are.
pub proof fn lemma_normalized_settles(s: SettingsView)
    ensures
        settings_valid(normalized_view(s)),
        normalized_view(normalized_view(s)) == normalized_view(s),
        settings_valid(s) ==> normalized_view(s) == s,
{
}

/// The defaults are valid settings.
pub proof fn lemma_defaults_valid()
    ensures
        settings_valid(default_settings()),
        normalized_view(default_settings()) == default_settings(),
{
}

/// Whether the launch-at-startup registration has to change after an update.
pub fn autostart_changed(previous: &Settings, updated: &Settings) -> (r: bool)
    ensures
        r == (previous.launch_at_startup != updated.launch_at_startup),
{
    previous.launch_at_startup != updated.launch_at_startup
}

} // verus!
