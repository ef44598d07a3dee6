//! The system tray menu: item identifiers, labels and what a click asks for.
use crate::db::WallpaperHistoryEntry;
use crate::text;
use vstd::prelude::*;

verus! {

/// Prefix of the menu identifiers of recently used wallpapers.
pub open spec fn history_prefix() -> Seq<char> {
    "history:"@
}

/// How many recently used wallpapers the tray menu lists.
pub const TRAY_HISTORY_LIMIT: i64 = 5;

/// The menu identifier of the history entry `history_id`.
pub fn tray_history_menu_id(history_id: i64) -> (r: String)
    ensures
        r@ == history_prefix() + text::int_text(history_id as int),
{
    let mut v: Vec<char> = Vec::new();
    text::push_str(&mut v, "history:");
    let digits = text::i64_text(history_id);
    text::push_all(&mut v, digits.as_slice());
    proof {
        reveal_strlit("history:");
    }
    text::string_from(v.as_slice())
}

/// The history entry named by a menu identifier: what follows the prefix,
/// read as an `i64`.
pub open spec fn history_id_of(id: Seq<char>) -> Option<int> {
    if text::has_prefix(id, history_prefix()) {
        text::parse_signed(id.skip(history_prefix().len() as int), i64::MIN as int, i64::MAX as int)
    } else {
        None
    }
}

/// Reads the history entry back from a menu identifier.
pub fn tray_history_id_from_menu_id(id: &str) -> (r: Option<i64>)
    ensures
        match r {
            Some(v) => history_id_of(id@) == Some(v as int),
            None => history_id_of(id@) is None,
        },
{
    proof {
        reveal_strlit("history:");
    }
    let chars = text::chars_of(id);
    if !text::starts_with_str(chars.as_slice(), "history:") {
        return None;
    }
    let rest = text::slice_to_vec(chars.as_slice(), 8, chars.len());
    assert(rest@ == id@.skip(8));
    text::parse_i64(rest.as_slice())
}

/// Reading back the identifier made for a history entry gives that entry.
pub proof fn lemma_history_menu_id_round_trips(history_id: i64)
    ensures
        history_id_of(history_prefix() + text::int_text(history_id as int)) == Some(history_id as int),
{
    reveal_strlit("history:");
    let id = history_prefix() + text::int_text(history_id as int);
    assert(id.take(8) == history_prefix());
    assert(id.skip(8) == text::int_text(history_id as int));
    if history_id < 0 {
        let m = (-history_id) as nat;
        text::lemma_decimal_digits(m);
        let t = text::int_text(history_id as int);
        assert(t.drop_first() == text::decimal(m));
    } else {
        text::lemma_decimal_digits(history_id as nat);
    }
}

/// The label of a recently used wallpaper: its title, marked when it was
/// applied to one display only.
pub open spec fn history_label(title: Seq<char>, on_one_display: bool) -> Seq<char> {
    if on_one_display {
        title + " (Display)"@
    } else {
        title
    }
}

/// The menu label of a history entry.
pub fn tray_history_menu_label(title: &str, target_monitor_id: Option<&str>) -> (r: String)
    ensures
        r@ == history_label(title@, target_monitor_id is Some),
{
    match target_monitor_id {
        Some(_) => crate::media::concat2(title, " (Display)"),
        None => text::owned(title),
    }
}

/// The label of the pause item once the wallpaper is `paused` or not.
pub fn pause_menu_label(paused: bool) -> (r: &'static str)
    ensures
        paused ==> r@ == "Resume wallpaper"@,
        !paused ==> r@ == "Pause wallpaper"@,
{
    if paused {
        "Resume wallpaper"
    } else {
        "Pause wallpaper"
    }
}

/// What a click on a tray menu item asks for.
#[derive(Clone, Copy, Debug, PartialEq, Eq, Structural)]
pub enum TrayMenuAction {
    ShowWindow,
    TogglePause,
    NextFavorite,
    RestoreOriginal,
    Quit,
    /// Apply the recorded wallpaper with this history id again.
    ApplyHistory(i64),
    /// An item that asks for nothing (an unknown id, or a history id that
    /// cannot be read).
    Ignore,
}

/// The action of the menu item `id`.
pub open spec fn menu_action_of(id: Seq<char>) -> TrayMenuAction {
    if id == "show"@ {
        TrayMenuAction::ShowWindow
    } else if id == "toggle_pause"@ {
        TrayMenuAction::TogglePause
    } else if id == "next_favorite"@ {
        TrayMenuAction::NextFavorite
    } else if id == "restore"@ {
        TrayMenuAction::RestoreOriginal
    } else if id == "quit"@ {
        TrayMenuAction::Quit
    } else {
        match history_id_of(id) {
            Some(h) => TrayMenuAction::ApplyHistory(h as i64),
            None => TrayMenuAction::Ignore,
        }
    }
}

/// Decides what a click on the tray menu item `id` asks for.
pub fn tray_menu_action(id: &str) -> (r: TrayMenuAction)
    ensures
        r == menu_action_of(id@),
{
    let chars = text::chars_of(id);
    let c = chars.as_slice();
    if text::chars_eq_str(c, "show") {
        TrayMenuAction::ShowWindow
    } else if text::chars_eq_str(c, "toggle_pause") {
        TrayMenuAction::TogglePause
    } else if text::chars_eq_str(c, "next_favorite") {
        TrayMenuAction::NextFavorite
    } else if text::chars_eq_str(c, "restore") {
        TrayMenuAction::RestoreOriginal
    } else if text::chars_eq_str(c, "quit") {
        TrayMenuAction::Quit
    } else {
        match tray_history_id_from_menu_id(id) {
            Some(h) => TrayMenuAction::ApplyHistory(h),
            None => TrayMenuAction::Ignore,
        }
    }
}

/// What a left click on the tray icon does to the main window.
#[derive(Clone, Copy, Debug, PartialEq, Eq, Structural)]
pub enum WindowToggle {
    Hide,
    Reveal,
}

/// A shown, unminimized window is hidden; any other is revealed and focused.
pub fn toggle_main_window_action(visible: bool, minimized: bool) -> (r: WindowToggle)
    ensures
        r == (if visible && !minimized {
            WindowToggle::Hide
        } else {
            WindowToggle::Reveal
        }),
{
    if visible && !minimized {
        WindowToggle::Hide
    } else {
        WindowToggle::Reveal
    }
}

/// The first entry with the given id, as the tray looks a click up among the
/// recently used wallpapers.
pub fn find_history_entry(entries: Vec<WallpaperHistoryEntry>, history_id: i64) -> (r: Option<WallpaperHistoryEntry>)
    ensures
        match r {
            Some(e) => exists|i: int|
                0 <= i < entries@.len() && entries@[i] == e && e.id == history_id && (forall|j: int|
                    0 <= j < i ==> (#[trigger] entries@[j]).id != history_id),
            None => forall|i: int| 0 <= i < entries@.len() ==> (#[trigger] entries@[i]).id != history_id,
        },
{
    let ghost orig = entries@;
    let mut rest = entries;
    let n = rest.len();
    let mut idx: usize = 0;
    while idx < n && rest[idx].id != history_id
        invariant
            n == orig.len(),
            rest@ == orig,
            idx <= n,
            forall|j: int| 0 <= j < idx ==> (#[trigger] orig[j]).id != history_id,
        decreases n - idx,
    {
        idx = idx + 1;
    }
    if idx < n {
        let e = rest.swap_remove(idx);
        assert(orig[idx as int] == e);
        Some(e)
    } else {
        None
    }
}

} // verus!
