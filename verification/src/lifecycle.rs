//! Applying and restoring wallpapers: what is remembered per monitor, what is
//! backed up, and what a launch restores.
use crate::display::Monitor;
use crate::media;
use crate::paths;
use crate::runtime::{FitMode, WallpaperTarget};
use crate::text;
use vstd::prelude::*;

verus! {

pub const ORIGINAL_WALLPAPER_BACKUP_KEY: &'static str = "original_wallpaper_path";

pub const MONITOR_WALLPAPER_ASSIGNMENTS_KEY: &'static str = "monitor_wallpaper_assignments";

pub open spec fn pairs_view(v: Seq<(String, String)>) -> Seq<(Seq<char>, Seq<char>)> {
    Seq::new(v.len(), |i: int| (v[i].0@, v[i].1@))
}

/// The map that a list of pairs builds when each is inserted in turn (a later pair
/// replaces an earlier one with the same key).
pub open spec fn map_of(pairs: Seq<(Seq<char>, Seq<char>)>) -> Map<Seq<char>, Seq<char>>
    decreases pairs.len(),
{
    if pairs.len() == 0 {
        Map::empty()
    } else {
        map_of(pairs.drop_last()).insert(pairs.last().0, pairs.last().1)
    }
}

pub open spec fn keys_unique(pairs: Seq<(Seq<char>, Seq<char>)>) -> bool {
    forall|i: int, j: int| 0 <= i < j < pairs.len() ==> #[trigger] pairs[i].0 != #[trigger] pairs[j].0
}

/// The wallpaper remembered for each monitor, by monitor id.
#[derive(Debug)]
pub struct MonitorAssignments {
    entries: Vec<(String, String)>,
}

proof fn lemma_map_of_keys(pairs: Seq<(Seq<char>, Seq<char>)>)
    ensures
        forall|k: Seq<char>| #[trigger] map_of(pairs).dom().contains(k) <==> exists|i: int|
            0 <= i < pairs.len() && pairs[i].0 == k,
    decreases pairs.len(),
{
    if pairs.len() > 0 {
        let pre = pairs.drop_last();
        lemma_map_of_keys(pre);
        assert forall|k: Seq<char>| #[trigger] map_of(pairs).dom().contains(k) <==> exists|i: int|
            0 <= i < pairs.len() && pairs[i].0 == k by {
            if map_of(pairs).dom().contains(k) {
                if k == pairs.last().0 {
                    assert(pairs[pairs.len() - 1].0 == k);
                } else {
                    assert(map_of(pre).dom().contains(k));
                    let i = choose|i: int| 0 <= i < pre.len() && pre[i].0 == k;
                    assert(pairs[i].0 == k);
                }
            }
            if exists|i: int| 0 <= i < pairs.len() && pairs[i].0 == k {
                let i = choose|i: int| 0 <= i < pairs.len() && pairs[i].0 == k;
                if i < pairs.len() - 1 {
                    assert(pre[i].0 == k);
                    assert(map_of(pre).dom().contains(k));
                }
            }
        }
    }
}

proof fn lemma_map_of_unique_value(pairs: Seq<(Seq<char>, Seq<char>)>, i: int)
    requires
        keys_unique(pairs),
        0 <= i < pairs.len(),
    ensures
        map_of(pairs).dom().contains(pairs[i].0),
        map_of(pairs)[pairs[i].0] == pairs[i].1,
    decreases pairs.len(),
{
    lemma_map_of_keys(pairs);
    if i < pairs.len() - 1 {
        assert(keys_unique(pairs.drop_last()));
        assert(pairs.drop_last()[i] == pairs[i]);
        lemma_map_of_unique_value(pairs.drop_last(), i);
        assert(pairs[i].0 != pairs.last().0);
    }
}

proof fn lemma_map_of_update(pairs: Seq<(Seq<char>, Seq<char>)>, i: int, v: Seq<char>)
    requires
        keys_unique(pairs),
        0 <= i < pairs.len(),
    ensures
        map_of(pairs.update(i, (pairs[i].0, v))) == map_of(pairs).insert(pairs[i].0, v),
        keys_unique(pairs.update(i, (pairs[i].0, v))),
    decreases pairs.len(),
{
    let u = pairs.update(i, (pairs[i].0, v));
    if i == pairs.len() - 1 {
        assert(u.drop_last() == pairs.drop_last());
        lemma_map_of_keys(pairs.drop_last());
        assert(map_of(u) =~= map_of(pairs).insert(pairs[i].0, v));
    } else {
        assert(keys_unique(pairs.drop_last()));
        lemma_map_of_update(pairs.drop_last(), i, v);
        assert(u.drop_last() == pairs.drop_last().update(i, (pairs[i].0, v)));
        assert(pairs[i].0 != pairs.last().0);
        assert(map_of(u) =~= map_of(pairs).insert(pairs[i].0, v));
    }
}

impl MonitorAssignments {
    pub closed spec fn view(&self) -> Map<Seq<char>, Seq<char>> {
        map_of(pairs_view(self.entries@))
    }

    pub closed spec fn wf(&self) -> bool {
        keys_unique(pairs_view(self.entries@))
    }

    pub fn new() -> (r: MonitorAssignments)
        ensures
            r.view() == Map::<Seq<char>, Seq<char>>::empty(),
            r.wf(),
    {
        let r = MonitorAssignments { entries: Vec::new() };
        assert(pairs_view(r.entries@) =~= Seq::<(Seq<char>, Seq<char>)>::empty());
        r
    }

    /// The map that inserting the pairs in turn builds.
    pub fn from_pairs(pairs: Vec<(String, String)>) -> (r: MonitorAssignments)
        ensures
            r.view() == map_of(pairs_view(pairs@)),
            r.wf(),
    {
        let mut r = MonitorAssignments::new();
        let mut i: usize = 0;
        while i < pairs.len()
            invariant
                i <= pairs@.len(),
                r.wf(),
                r.view() == map_of(pairs_view(pairs@).take(i as int)),
            decreases pairs@.len() - i,
        {
            assert(pairs_view(pairs@).take(i + 1).drop_last() == pairs_view(pairs@).take(i as int));
            let (k, v) = (text::owned(pairs[i].0.as_str()), text::owned(pairs[i].1.as_str()));
            r.insert(k, v);
            i = i + 1;
        }
        assert(pairs_view(pairs@).take(pairs@.len() as int) == pairs_view(pairs@));
        r
    }

    fn find(&self, key: &[char]) -> (r: Option<usize>)
        requires
            self.wf(),
        ensures
            match r {
                Some(i) => i < self.entries@.len() && self.entries@[i as int].0@ == key@,
                None => forall|i: int| 0 <= i < self.entries@.len() ==> self.entries@[i].0@ != key@,
            },
    {
        let mut i: usize = 0;
        while i < self.entries.len()
            invariant
                i <= self.entries@.len(),
                forall|k: int| 0 <= k < i ==> self.entries@[k].0@ != key@,
            decreases self.entries@.len() - i,
        {
            if text::chars_eq(text::chars_of(self.entries[i].0.as_str()).as_slice(), key) {
                return Some(i);
            }
            i = i + 1;
        }
        None
    }

    pub fn get(&self, key: &str) -> (r: Option<&str>)
        requires
            self.wf(),
        ensures
            match r {
                Some(v) => self.view().dom().contains(key@) && self.view()[key@] == v@,
                None => !self.view().dom().contains(key@),
            },
    {
        let ghost pv = pairs_view(self.entries@);
        proof {
            lemma_map_of_keys(pv);
        }
        match self.find(text::chars_of(key).as_slice()) {
            Some(i) => {
                proof {
                    lemma_map_of_unique_value(pv, i as int);
                }
                Some(self.entries[i].1.as_str())
            },
            None => {
                assert forall|j: int| 0 <= j < pv.len() implies pv[j].0 != key@ by {
                    assert(pv[j].0 == self.entries@[j].0@);
                }
                None
            },
        }
    }

    /// Sets the wallpaper of one monitor.
    pub fn insert(&mut self, key: String, value: String)
        requires
            old(self).wf(),
        ensures
            final(self).wf(),
            final(self).view() == old(self).view().insert(key@, value@),
    {
        let ghost pv = pairs_view(self.entries@);
        match self.find(text::chars_of(key.as_str()).as_slice()) {
            Some(i) => {
                proof {
                    lemma_map_of_update(pv, i as int, value@);
                }
                let ghost kv = key@;
                self.entries.set(i, (key, value));
                assert(pairs_view(self.entries@) =~= pv.update(i as int, (pv[i as int].0, value@)));
            },
            None => {
                let ghost kv = key@;
                let ghost vv = value@;
                self.entries.push((key, value));
                assert(pairs_view(self.entries@) =~= pv.push((kv, vv)));
                assert(pairs_view(self.entries@).drop_last() == pv);
                assert forall|i: int, j: int| 0 <= i < j < pairs_view(self.entries@).len() implies #[trigger] pairs_view(self.entries@)[i].0
                    != #[trigger] pairs_view(self.entries@)[j].0 by {
                    if j == pv.len() {
                        assert(pv[i].0 == self.entries@[i].0@);
                    }
                }
            },
        }
    }

    /// Adds every assignment of `other`, replacing those of the same monitors.
    pub fn extend(&mut self, other: &MonitorAssignments)
        requires
            old(self).wf(),
        ensures
            final(self).wf(),
            final(self).view() == old(self).view().union_prefer_right(other.view()),
    {
        let ghost start = self.view();
        let ghost ov = pairs_view(other.entries@);
        let mut i: usize = 0;
        while i < other.entries.len()
            invariant
                i <= other.entries@.len(),
                ov == pairs_view(other.entries@),
                self.wf(),
                self.view() == start.union_prefer_right(map_of(ov.take(i as int))),
            decreases other.entries@.len() - i,
        {
            assert(ov.take(i + 1).drop_last() == ov.take(i as int));
            assert(ov.take(i + 1).last() == ov[i as int]);
            let k = text::owned(other.entries[i].0.as_str());
            let v = text::owned(other.entries[i].1.as_str());
            self.insert(k, v);
            assert(self.view() =~= start.union_prefer_right(map_of(ov.take(i + 1))));
            i = i + 1;
        }
        assert(ov.take(other.entries@.len() as int) == ov);
    }

    pub fn is_empty(&self) -> (r: bool)
        ensures
            r == (self.view() == Map::<Seq<char>, Seq<char>>::empty()),
    {
        proof {
            lemma_map_of_keys(pairs_view(self.entries@));
        }
        if self.entries.len() == 0 {
            assert(pairs_view(self.entries@) =~= Seq::<(Seq<char>, Seq<char>)>::empty());
            true
        } else {
            let ghost k = self.entries@[0].0@;
            assert(pairs_view(self.entries@)[0].0 == k);
            assert(self.view().dom().contains(k));
            assert(!Map::<Seq<char>, Seq<char>>::empty().dom().contains(k));
            false
        }
    }

    /// The assignments as pairs, each monitor once.
    pub fn pairs(&self) -> (r: Vec<(String, String)>)
        ensures
            map_of(pairs_view(r@)) == self.view(),
            keys_unique(pairs_view(r@)) || !self.wf(),
    {
        let mut out: Vec<(String, String)> = Vec::new();
        let mut i: usize = 0;
        while i < self.entries.len()
            invariant
                i <= self.entries@.len(),
                pairs_view(out@) == pairs_view(self.entries@).take(i as int),
            decreases self.entries@.len() - i,
        {
            let a = text::owned(self.entries[i].0.as_str());
            let b = text::owned(self.entries[i].1.as_str());
            let ghost before = pairs_view(out@);
            out.push((a, b));
            assert(pairs_view(out@) =~= before.push(pairs_view(self.entries@)[i as int]));
            assert(pairs_view(self.entries@).take(i + 1) =~= pairs_view(self.entries@).take(i as int).push(
                pairs_view(self.entries@)[i as int],
            ));
            i = i + 1;
        }
        assert(pairs_view(self.entries@).take(self.entries@.len() as int) == pairs_view(self.entries@));
        out
    }
}

/// The assignments kept after applying `wallpaper_path` to `target`: none for all
/// displays (they are cleared); for one monitor, the current assignments (or, when
/// there are none, the all-display wallpaper that is being replaced on each monitor)
/// with that monitor set to the new wallpaper.
pub open spec fn assignments_after(
    target: WallpaperTarget,
    wallpaper_path: Seq<char>,
    current: Map<Seq<char>, Seq<char>>,
    retained: Map<Seq<char>, Seq<char>>,
) -> Option<Map<Seq<char>, Seq<char>>> {
    match target {
        WallpaperTarget::All => None,
        WallpaperTarget::Monitor(id) => Some(
            (if current == Map::<Seq<char>, Seq<char>>::empty() {
                retained
            } else {
                current
            }).insert(id@, wallpaper_path),
        ),
    }
}

pub fn assignments_for_target(
    target: &WallpaperTarget,
    wallpaper_path: &str,
    current: MonitorAssignments,
    retained: &MonitorAssignments,
) -> (r: Option<MonitorAssignments>)
    requires
        current.wf(),
    ensures
        match (r, assignments_after(*target, wallpaper_path@, current.view(), retained.view())) {
            (Some(a), Some(m)) => a.view() == m && a.wf(),
            (None, None) => true,
            _ => false,
        },
{
    match target {
        WallpaperTarget::All => None,
        WallpaperTarget::Monitor(monitor_id) => {
            let mut assignments = current;
            if assignments.is_empty() {
                assignments.extend(retained);
                assert(assignments.view() =~= retained.view());
            }
            assignments.insert(text::owned(monitor_id.as_str()), text::owned(wallpaper_path));
            Some(assignments)
        },
    }
}

/// Applying a wallpaper to one monitor shows it there and leaves every other monitor's
/// remembered wallpaper as it was (or, with nothing remembered, as the all-display
/// wallpaper it replaces); applying to all displays forgets every assignment.
pub proof fn lemma_assignment_targets(
    id: String,
    wallpaper_path: Seq<char>,
    current: Map<Seq<char>, Seq<char>>,
    retained: Map<Seq<char>, Seq<char>>,
    other: Seq<char>,
)
    ensures
        ({
            let after = assignments_after(WallpaperTarget::Monitor(id), wallpaper_path, current, retained)->0;
            let before = if current == Map::<Seq<char>, Seq<char>>::empty() { retained } else { current };
            &&& after.dom().contains(id@) && after[id@] == wallpaper_path
            &&& other != id@ ==> (after.dom().contains(other) == before.dom().contains(other))
            &&& (other != id@ && before.dom().contains(other)) ==> after[other] == before[other]
        }),
        assignments_after(WallpaperTarget::All, wallpaper_path, current, retained) is None,
{
}

/// The all-display wallpaper spread over each monitor, so that a single monitor
/// can be changed without losing the others.
pub fn retained_monitor_assignments(wallpaper_path: &str, monitor_ids: &Vec<String>) -> (r: MonitorAssignments)
    ensures
        r.wf(),
        forall|k: Seq<char>| #[trigger] r.view().dom().contains(k) <==> exists|i: int|
            0 <= i < monitor_ids@.len() && monitor_ids@[i]@ == k,
        forall|k: Seq<char>| r.view().dom().contains(k) ==> #[trigger] r.view()[k] == wallpaper_path@,
{
    let mut r = MonitorAssignments::new();
    let mut i: usize = 0;
    while i < monitor_ids.len()
        invariant
            i <= monitor_ids@.len(),
            r.wf(),
            forall|k: Seq<char>| #[trigger] r.view().dom().contains(k) <==> exists|j: int|
                0 <= j < i && monitor_ids@[j]@ == k,
            forall|k: Seq<char>| r.view().dom().contains(k) ==> #[trigger] r.view()[k] == wallpaper_path@,
        decreases monitor_ids@.len() - i,
    {
        r.insert(text::owned(monitor_ids[i].as_str()), text::owned(wallpaper_path));
        assert forall|k: Seq<char>| #[trigger] r.view().dom().contains(k) <==> exists|j: int|
            0 <= j < i + 1 && monitor_ids@[j]@ == k by {
            if k == monitor_ids@[i as int]@ {
                assert(monitor_ids@[i as int]@ == k);
            }
        }
        i = i + 1;
    }
    r
}

/// The monitor ids of an enumeration, in order.
pub fn monitor_ids(monitors: &[Monitor]) -> (r: Vec<String>)
    ensures
        r@.len() == monitors@.len(),
        forall|i: int| 0 <= i < r@.len() ==> #[trigger] r@[i]@ == monitors@[i].id@,
{
    let mut out: Vec<String> = Vec::new();
    let mut i: usize = 0;
    while i < monitors.len()
        invariant
            i <= monitors@.len(),
            out@.len() == i,
            forall|k: int| 0 <= k < i ==> #[trigger] out@[k]@ == monitors@[k].id@,
        decreases monitors@.len() - i,
    {
        out.push(text::owned(monitors[i].id.as_str()));
        i = i + 1;
    }
    out
}

/// The assignments to keep when a monitor gets its own wallpaper while one video plays
/// on every display: only then, and only when nothing is remembered yet, the video's
/// path on every monitor that was found.
pub fn retained_all_display_video_assignments(
    target: &WallpaperTarget,
    runtime_active: bool,
    current_empty: Option<bool>,
    all_display_video: Option<String>,
    monitors: Option<Vec<String>>,
) -> (r: MonitorAssignments)
    ensures
        r.wf(),
        !(target is Monitor && runtime_active && current_empty == Some(true) && all_display_video is Some
            && monitors is Some) ==> r.view() == Map::<Seq<char>, Seq<char>>::empty(),
        (target is Monitor && runtime_active && current_empty == Some(true) && all_display_video is Some
            && monitors is Some) ==> (forall|k: Seq<char>| #[trigger] r.view().dom().contains(k) <==> exists|i: int|
            0 <= i < monitors->0@.len() && monitors->0@[i]@ == k) && (forall|k: Seq<char>|
            r.view().dom().contains(k) ==> #[trigger] r.view()[k] == all_display_video->0@),
{
    let is_monitor = match target {
        WallpaperTarget::Monitor(_) => true,
        WallpaperTarget::All => false,
    };
    if !is_monitor || !runtime_active || current_empty != Some(true) {
        return MonitorAssignments::new();
    }
    match (all_display_video, monitors) {
        (Some(path), Some(ids)) => retained_monitor_assignments(path.as_str(), &ids),
        _ => MonitorAssignments::new(),
    }
}

/// Whether a file is applied as a static desktop picture: by its library media type
/// when the library knows it, else by its extension.
pub fn is_static_wallpaper(library_media_type: Option<&str>, wallpaper_path: &str) -> (r: bool)
    ensures
        r == match library_media_type {
            Some(t) => (t@ == "image"@ && media::is_static_image(wallpaper_path@)),
            None => media::is_static_image(wallpaper_path@),
        },
{
    match library_media_type {
        Some(t) => media::should_apply_as_static_wallpaper(t, wallpaper_path),
        None => media::is_supported_static_image_path(wallpaper_path),
    }
}

/// The video that plays on every display, as the last applied wallpaper tells: a
/// non-blank, supported path that is not a static picture.
pub fn active_all_display_video_path(last_path: Option<String>, is_static: bool) -> (r: Option<String>)
    ensures
        match last_path {
            Some(p) => if text::trim_seq(p@).len() > 0 && media::is_wallpaper(p@) && !is_static {
                r matches Some(q) && q@ == p@
            } else {
                r is None
            },
            None => r is None,
        },
{
    match last_path {
        Some(p) => {
            if text::trim_str(p.as_str()).len() > 0 && media::is_supported_wallpaper_path(p.as_str())
                && !is_static {
                Some(p)
            } else {
                None
            }
        },
        None => None,
    }
}

/// The wallpaper remembered as "previous" when `next_path` is applied: the current one,
/// when it is not blank and differs from the next.
pub fn previous_path_candidate(current_path: Option<String>, next_path: &str) -> (r: Option<String>)
    ensures
        match current_path {
            Some(p) => if text::trim_seq(p@).len() > 0 && p@ != next_path@ {
                r matches Some(q) && q@ == p@
            } else {
                r is None
            },
            None => r is None,
        },
{
    match current_path {
        Some(p) => {
            let pc = text::chars_of(p.as_str());
            if text::trim(pc.as_slice()).len() > 0 && !text::chars_eq_str(pc.as_slice(), next_path) {
                Some(p)
            } else {
                None
            }
        },
        None => None,
    }
}

/// A backup of the original desktop picture exists when a non-blank path is saved.
pub fn has_original_wallpaper_backup(path: Option<&str>) -> (r: bool)
    ensures
        r == match path {
            Some(p) => text::trim_seq(p@).len() > 0,
            None => false,
        },
{
    match path {
        Some(p) => text::trim_str(p).len() > 0,
        None => false,
    }
}

/// Two saved wallpaper paths name the same file: trimmed, with either separator, and
/// ignoring ASCII case.
pub open spec fn same_saved_path(left: Seq<char>, right: Seq<char>) -> bool {
    paths::same_path(text::trim_seq(left), text::trim_seq(right))
}

pub fn same_wallpaper_path(left: &str, right: &str) -> (r: bool)
    ensures
        r == same_saved_path(left@, right@),
{
    let l = text::trim_str(left);
    let r = text::trim_str(right);
    paths::same_path_exec(l.as_slice(), r.as_slice())
}

/// A desktop picture that the app itself put there: the last applied wallpaper, a
/// library file, or a remembered monitor assignment.
pub open spec fn tracked_by_app(
    path: Seq<char>,
    last_path: Option<Seq<char>>,
    library: Seq<Seq<char>>,
    assigned: Seq<Seq<char>>,
) -> bool {
    ||| last_path matches Some(l) && same_saved_path(l, path)
    ||| exists|i: int| 0 <= i < library.len() && same_saved_path(#[trigger] library[i], path)
    ||| exists|i: int| 0 <= i < assigned.len() && same_saved_path(#[trigger] assigned[i], path)
}

fn any_same_path(paths_list: &Vec<String>, path: &str) -> (r: bool)
    ensures
        r == exists|i: int| 0 <= i < paths_list@.len() && same_saved_path(#[trigger] paths_list@[i]@, path@),
{
    let mut i: usize = 0;
    while i < paths_list.len()
        invariant
            i <= paths_list@.len(),
            forall|k: int| 0 <= k < i ==> !same_saved_path(#[trigger] paths_list@[k]@, path@),
        decreases paths_list@.len() - i,
    {
        if same_wallpaper_path(paths_list[i].as_str(), path) {
            return true;
        }
        i = i + 1;
    }
    false
}


pub fn is_wallscape_tracked_wallpaper(
    path: &str,
    last_path: Option<&str>,
    library_paths: &Vec<String>,
    assigned_paths: &Vec<String>,
) -> (r: bool)
    ensures
        r == tracked_by_app(
            path@,
            match last_path {
                Some(l) => Some(l@),
                None => None,
            },
            text::strings_view(library_paths@),
            text::strings_view(assigned_paths@),
        ),
{
    let last = match last_path {
        Some(l) => same_wallpaper_path(l, path),
        None => false,
    };
    let lib = any_same_path(library_paths, path);
    let asg = any_same_path(assigned_paths, path);
    proof {
        let lv = text::strings_view(library_paths@);
        let av = text::strings_view(assigned_paths@);
        if lib {
            let i = choose|i: int| 0 <= i < library_paths@.len() && same_saved_path(#[trigger] library_paths@[i]@, path@);
            assert(lv[i] == library_paths@[i]@);
        }
        if exists|i: int| 0 <= i < lv.len() && same_saved_path(#[trigger] lv[i], path@) {
            let i = choose|i: int| 0 <= i < lv.len() && same_saved_path(#[trigger] lv[i], path@);
            assert(lv[i] == library_paths@[i]@);
        }
        if asg {
            let i = choose|i: int| 0 <= i < assigned_paths@.len() && same_saved_path(#[trigger] assigned_paths@[i]@, path@);
            assert(av[i] == assigned_paths@[i]@);
        }
        if exists|i: int| 0 <= i < av.len() && same_saved_path(#[trigger] av[i], path@) {
            let i = choose|i: int| 0 <= i < av.len() && same_saved_path(#[trigger] av[i], path@);
            assert(av[i] == assigned_paths@[i]@);
        }
    }
    last || lib || asg
}

/// The original desktop picture to save: the one the system reports, when no backup
/// exists yet and the picture is not one the app applied.
pub fn original_backup_to_save(existing_backup: Option<&str>, desktop_picture: Option<String>, app_applied: bool) -> (r: Option<String>)
    ensures
        match existing_backup {
            Some(p) if text::trim_seq(p@).len() > 0 => r is None,
            _ => match desktop_picture {
                Some(d) => if app_applied {
                    r is None
                } else {
                    r matches Some(s) && s@ == d@
                },
                None => r is None,
            },
        },
{
    if has_original_wallpaper_backup(existing_backup) {
        return None;
    }
    match desktop_picture {
        Some(d) => if app_applied {
            None
        } else {
            Some(d)
        },
        None => None,
    }
}

/// The saved original desktop picture, or the error given when none was saved.
pub fn original_wallpaper_backup_path(saved: Option<String>) -> (r: Result<String, String>)
    ensures
        match saved {
            Some(p) => r matches Ok(q) && q@ == p@,
            None => r matches Err(e) && e@ == "No original wallpaper backup has been saved yet"@,
        },
{
    match saved {
        Some(p) => Ok(p),
        None => Err(text::owned("No original wallpaper backup has been saved yet")),
    }
}

/// The fit mode a setting names; unknown names fit.
pub fn fit_mode_from_setting(mode: &str) -> (r: FitMode)
    ensures
        r == (if mode@ == "fill"@ {
            FitMode::Fill
        } else if mode@ == "stretch"@ {
            FitMode::Stretch
        } else {
            FitMode::Fit
        }),
{
    let m = text::chars_of(mode);
    if text::chars_eq_str(m.as_slice(), "fill") {
        FitMode::Fill
    } else if text::chars_eq_str(m.as_slice(), "stretch") {
        FitMode::Stretch
    } else {
        FitMode::Fit
    }
}

/// The monitor an apply is aimed at: a given, non-blank id.
pub fn target_monitor_id(monitor_id: Option<String>) -> (r: Option<String>)
    ensures
        match monitor_id {
            Some(id) => if text::trim_seq(id@).len() > 0 {
                r matches Some(s) && s@ == id@
            } else {
                r is None
            },
            None => r is None,
        },
{
    match monitor_id {
        Some(id) => if text::trim_str(id.as_str()).len() > 0 {
            Some(id)
        } else {
            None
        },
        None => None,
    }
}

pub fn target_from_monitor_id(monitor_id: Option<String>) -> (r: WallpaperTarget)
    ensures
        match monitor_id {
            Some(id) => r matches WallpaperTarget::Monitor(m) && m@ == id@,
            None => r is All,
        },
{
    match monitor_id {
        Some(id) => WallpaperTarget::Monitor(id),
        None => WallpaperTarget::All,
    }
}

/// How a supported wallpaper is applied.
#[derive(Debug, Clone, Copy, PartialEq, Eq, Structural)]
pub enum ApplyPlan {
    /// Stop every video, set the desktop picture and forget the monitor assignments.
    StaticEverywhere,
    /// Stop the monitor's video, set its picture and remember the assignment.
    StaticOnMonitor,
    /// Play the video on the target and remember the assignment.
    Video,
}

/// The plan for applying a wallpaper: an error for an unsupported format.
pub fn apply_plan(wallpaper_path: &str, is_static: bool, target: &WallpaperTarget) -> (r: Result<ApplyPlan, String>)
    ensures
        !media::is_wallpaper(wallpaper_path@) ==> (r matches Err(e) && e@ == "Unsupported wallpaper format: "@
            + wallpaper_path@),
        media::is_wallpaper(wallpaper_path@) ==> r == Ok::<ApplyPlan, String>(
            if !is_static {
                ApplyPlan::Video
            } else if target is All {
                ApplyPlan::StaticEverywhere
            } else {
                ApplyPlan::StaticOnMonitor
            },
        ),
{
    if !media::is_supported_wallpaper_path(wallpaper_path) {
        let mut msg = text::chars_of("Unsupported wallpaper format: ");
        text::push_str(&mut msg, wallpaper_path);
        return Err(text::string_from(msg.as_slice()));
    }
    if !is_static {
        return Ok(ApplyPlan::Video);
    }
    match target {
        WallpaperTarget::All => Ok(ApplyPlan::StaticEverywhere),
        WallpaperTarget::Monitor(_) => Ok(ApplyPlan::StaticOnMonitor),
    }
}

/// What a launch does with the last applied wallpaper.
#[derive(Debug, Clone, PartialEq, Eq)]
pub enum LaunchRestore {
    Nothing,
    Static(String),
    Video(String),
}

/// The launch restore of the last wallpaper: nothing when none was saved; an error when
/// it is blank or gone or of an unsupported format; else it is applied as a picture or
/// played as a video on every display.
pub fn last_wallpaper_restore(last_path: Option<String>, file_exists: bool, is_static: bool) -> (r: Result<LaunchRestore, String>)
    ensures
        match last_path {
            None => r matches Ok(LaunchRestore::Nothing),
            Some(p) => if text::trim_seq(p@).len() == 0 || !file_exists {
                r matches Err(e) && e@ == "Last wallpaper is no longer available: "@ + p@
            } else if !media::is_wallpaper(p@) {
                r matches Err(e) && e@ == "Last wallpaper uses an unsupported format: "@ + p@
            } else if is_static {
                r matches Ok(LaunchRestore::Static(q)) && q@ == p@
            } else {
                r matches Ok(LaunchRestore::Video(q)) && q@ == p@
            },
        },
{
    let p = match last_path {
        Some(p) => p,
        None => return Ok(LaunchRestore::Nothing),
    };
    if text::trim_str(p.as_str()).len() == 0 || !file_exists {
        let mut msg = text::chars_of("Last wallpaper is no longer available: ");
        text::push_str(&mut msg, p.as_str());
        return Err(text::string_from(msg.as_slice()));
    }
    if !media::is_supported_wallpaper_path(p.as_str()) {
        let mut msg = text::chars_of("Last wallpaper uses an unsupported format: ");
        text::push_str(&mut msg, p.as_str());
        return Err(text::string_from(msg.as_slice()));
    }
    if is_static {
        Ok(LaunchRestore::Static(p))
    } else {
        Ok(LaunchRestore::Video(p))
    }
}

/// What a launch does with one remembered monitor assignment.
#[derive(Debug, Clone, Copy, PartialEq, Eq, Structural)]
pub enum AssignmentRestore {
    /// The file is blank, gone or unsupported: leave the monitor alone.
    Skip,
    Static,
    Video,
}

pub fn assignment_restore(wallpaper_path: &str, file_exists: bool, is_static: bool) -> (r: AssignmentRestore)
    ensures
        r == (if text::trim_seq(wallpaper_path@).len() == 0 || !file_exists || !media::is_wallpaper(
            wallpaper_path@,
        ) {
            AssignmentRestore::Skip
        } else if is_static {
            AssignmentRestore::Static
        } else {
            AssignmentRestore::Video
        }),
{
    if text::trim_str(wallpaper_path).len() == 0 || !file_exists || !media::is_supported_wallpaper_path(
        wallpaper_path,
    ) {
        AssignmentRestore::Skip
    } else if is_static {
        AssignmentRestore::Static
    } else {
        AssignmentRestore::Video
    }
}

/// The history source and message of a restore named `label`.
pub fn restore_labels(label: &str, wallpaper_path: &str) -> (r: (String, String))
    ensures
        r.0@ == "restore_"@ + label@,
        r.1@ == "Restored "@ + label@ + " wallpaper: "@ + wallpaper_path@,
{
    let mut source = text::chars_of("restore_");
    text::push_str(&mut source, label);
    let mut msg = text::chars_of("Restored ");
    text::push_str(&mut msg, label);
    text::push_str(&mut msg, " wallpaper: ");
    text::push_str(&mut msg, wallpaper_path);
    (text::string_from(source.as_slice()), text::string_from(msg.as_slice()))
}

/// What `serde_json::from_str::<BTreeMap<String, String>>` gives for a text: the
/// object's entries in the map's key order, or the error's message.
pub uninterp spec fn json_string_map(text: Seq<char>) -> Result<Seq<(Seq<char>, Seq<char>)>, Seq<char>>;

/// Reads a JSON object of strings with `serde_json::from_str` into a `BTreeMap` and lists
/// its entries; on failure, the error's `Display` text. The result is `json_string_map`.
#[verifier::external_body]
fn read_json_string_map(text: &str) -> (r: Result<Vec<(String, String)>, String>)
    ensures
        match r {
            Ok(v) => json_string_map(text@) == Ok::<Seq<(Seq<char>, Seq<char>)>, Seq<char>>(pairs_view(v@)),
            Err(e) => json_string_map(text@) == Err::<Seq<(Seq<char>, Seq<char>)>, Seq<char>>(e@),
        },
{
    serde_json::from_str::<std::collections::BTreeMap<String, String>>(text)
        .map(|m| m.into_iter().collect())
        .map_err(|e| e.to_string())
}

/// The monitor assignments stored as a JSON object, or why they could not be read.
pub fn parse_assignments(json: &str) -> (r: Result<MonitorAssignments, String>)
    ensures
        match json_string_map(json@) {
            Ok(pairs) => r matches Ok(a) && a.wf() && a.view() == map_of(pairs),
            Err(e) => r matches Err(m) && m@ == "Failed to parse monitor wallpaper assignments: "@ + e,
        },
{
    match read_json_string_map(json) {
        Ok(pairs) => Ok(MonitorAssignments::from_pairs(pairs)),
        Err(e) => {
            let mut msg = text::chars_of("Failed to parse monitor wallpaper assignments: ");
            text::push_str(&mut msg, e.as_str());
            Err(text::string_from(msg.as_slice()))
        },
    }
}

/// What `serde_json::to_string` gives for a `BTreeMap<String, String>` with
/// these entries: the JSON object text, or `None` when serialization fails.
pub uninterp spec fn json_text_of_string_map(m: Map<Seq<char>, Seq<char>>) -> Option<Seq<char>>;

/// Collects pairs with distinct keys into a `BTreeMap` and writes it with
/// `serde_json::to_string`; the result is `json_text_of_string_map` of their map.
#[verifier::external_body]
fn write_json_string_map(pairs: &Vec<(String, String)>) -> (r: Option<String>)
    requires
        keys_unique(pairs_view(pairs@)),
    ensures
        match r {
            Some(t) => json_text_of_string_map(map_of(pairs_view(pairs@))) == Some(t@),
            None => json_text_of_string_map(map_of(pairs_view(pairs@))) is None,
        },
{
    let m: std::collections::BTreeMap<String, String> = pairs.iter().cloned().collect();
    serde_json::to_string(&m).ok()
}

/// The monitor assignments as the JSON object they are stored as; `None` when
/// they cannot be written.
pub fn assignments_json(assignments: &MonitorAssignments) -> (r: Option<String>)
    requires
        assignments.wf(),
    ensures
        match r {
            Some(t) => json_text_of_string_map(assignments.view()) == Some(t@),
            None => json_text_of_string_map(assignments.view()) is None,
        },
{
    let pairs = assignments.pairs();
    write_json_string_map(&pairs)
}

/// Reading an assignment back gives what was written for that display, and
/// writing one display's assignment leaves the others as they were.
pub proof fn lemma_assignment_read_after_write(
    before: Map<Seq<char>, Seq<char>>,
    display: Seq<char>,
    path: Seq<char>,
    other: Seq<char>,
)
    requires
        other != display,
    ensures
        before.insert(display, path).dom().contains(display),
        before.insert(display, path)[display] == path,
        before.insert(display, path).dom().contains(other) == before.dom().contains(other),
        before.dom().contains(other) ==> before.insert(display, path)[other] == before[other],
{
}

} // verus!
