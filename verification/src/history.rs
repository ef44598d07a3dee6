//! Undo through the wallpaper history.
use crate::db::{self, WallpaperHistoryEntry};
use crate::paths;
use crate::text;
use vstd::prelude::*;

verus! {

/// The entry that an undo re-applies, and the monitor it re-applies it to.
#[derive(Debug, Clone)]
pub struct WallpaperHistoryUndoTarget {
    pub entry: WallpaperHistoryEntry,
    pub monitor_id: Option<String>,
}

/// Whether two wallpaper paths name the same file; an absent left path matches nothing.
pub fn same_wallpaper_path(left: Option<&str>, right: &str) -> (r: bool)
    ensures
        r == db::path_matches(db::opt_str_view(left), right@),
{
    db::path_matches_exec(left, right)
}

/// A history entry can be re-applied when its file still exists (`file_exists`,
/// read from disk) and is a supported wallpaper.
pub fn is_existing_supported_wallpaper(entry: &WallpaperHistoryEntry, file_exists: bool) -> (r: bool)
    ensures
        r == (file_exists && crate::media::is_wallpaper(entry.file_path@)),
{
    file_exists && crate::media::is_supported_wallpaper_path(entry.file_path.as_str())
}

/// An apply aimed at `entry_target` changed what `undo_target` shows: an apply to
/// every display affects every target, a monitor apply only its own monitor.
pub open spec fn affects(entry_target: Option<Seq<char>>, undo_target: Option<Seq<char>>) -> bool {
    match undo_target {
        Some(m) => entry_target is None || entry_target == Some(m),
        None => entry_target is None,
    }
}

pub fn affects_undo_target(entry_target: Option<&str>, undo_target: Option<&str>) -> (r: bool)
    ensures
        r == affects(db::opt_str_view(entry_target), db::opt_str_view(undo_target)),
{
    match undo_target {
        Some(m) => entry_target.is_none() || db::opt_eq(entry_target, Some(m)),
        None => entry_target.is_none(),
    }
}

/// Entry `k` (after the latest, entry 0) can be re-applied by an undo.
pub open spec fn undo_candidate(entries: Seq<WallpaperHistoryEntry>, valid: Seq<bool>, k: int) -> bool {
    &&& 1 <= k < entries.len()
    &&& affects(
        db::opt_view(entries[k].target_monitor_id),
        db::opt_view(entries[0].target_monitor_id),
    )
    &&& !paths::same_path(entries[0].file_path@, entries[k].file_path@)
    &&& valid[k]
}

/// Picks what an undo re-applies: the newest earlier entry that affected the
/// latest entry's target, names another file and is still usable
/// (`valid[k]`, the file-system check of entry `k`). The undo goes to the latest
/// entry's target.
pub fn select_undo_target(entries: &Vec<WallpaperHistoryEntry>, valid: &Vec<bool>) -> (r: Option<WallpaperHistoryUndoTarget>)
    requires
        valid@.len() == entries@.len(),
    ensures
        match r {
            Some(t) => exists|k: int|
                #![trigger entries@[k]]
                undo_candidate(entries@, valid@, k) && (forall|j: int|
                    1 <= j < k ==> !undo_candidate(entries@, valid@, j)) && t.entry == entries@[k]
                    && t.monitor_id == entries@[0].target_monitor_id,
            None => forall|k: int| !undo_candidate(entries@, valid@, k),
        },
{
    if entries.len() == 0 {
        return None;
    }
    let latest = &entries[0];
    let mut i: usize = 1;
    while i < entries.len()
        invariant
            1 <= i <= entries@.len(),
            valid@.len() == entries@.len(),
            *latest == entries@[0],
            forall|j: int| 1 <= j < i ==> !undo_candidate(entries@, valid@, j),
        decreases entries@.len() - i,
    {
        let entry = &entries[i];
        let lp = text::chars_of(latest.file_path.as_str());
        let ep = text::chars_of(entry.file_path.as_str());
        if affects_undo_target(
            db::opt_as_str(&entry.target_monitor_id),
            db::opt_as_str(&latest.target_monitor_id),
        ) && !paths::same_path_exec(lp.as_slice(), ep.as_slice()) && valid[i] {
            assert(undo_candidate(entries@, valid@, i as int));
            return Some(
                WallpaperHistoryUndoTarget {
                    entry: entry.duplicate(),
                    monitor_id: db::copy_opt(&latest.target_monitor_id),
                },
            );
        }
        i = i + 1;
    }
    None
}

/// How many history entries a listing shows: 12 unless asked, at most 50, at least 1.
pub fn history_list_limit(limit: Option<i64>) -> (r: i64)
    ensures
        r == match limit {
            Some(l) => if l < 1 {
                1
            } else if l > 50 {
                50
            } else {
                l
            },
            None => 12,
        },
{
    match limit {
        Some(l) => if l < 1 {
            1
        } else if l > 50 {
            50
        } else {
            l
        },
        None => 12,
    }
}

} // verus!
