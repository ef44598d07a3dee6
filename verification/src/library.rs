//! Library housekeeping: favorite rotation, broken entries, removal and restore status.
use crate::db::{self, Wallpaper};
use crate::media;
use crate::text;
use vstd::prelude::*;

verus! {

/// The favorites whose file is not the current wallpaper, in order.
pub open spec fn other_favorites(ws: Seq<Wallpaper>, current: Option<Seq<char>>) -> Seq<Wallpaper>
    decreases ws.len(),
{
    if ws.len() == 0 {
        ws
    } else if Some(ws.last().file_path@) != current {
        other_favorites(ws.drop_last(), current).push(ws.last())
    } else {
        other_favorites(ws.drop_last(), current)
    }
}

/// The favorites a rotation may pick: those other than the current wallpaper, or all
/// of them when the current one is the only favorite.
pub open spec fn rotation_pool(favorites: Seq<Wallpaper>, current: Option<Seq<char>>) -> Seq<Wallpaper> {
    if other_favorites(favorites, current).len() == 0 {
        favorites
    } else {
        other_favorites(favorites, current)
    }
}

pub proof fn lemma_other_favorites(ws: Seq<Wallpaper>, current: Option<Seq<char>>)
    ensures
        forall|i: int| 0 <= i < other_favorites(ws, current).len() ==> ws.contains(
            #[trigger] other_favorites(ws, current)[i],
        ) && Some(other_favorites(ws, current)[i].file_path@) != current,
        (exists|j: int| 0 <= j < ws.len() && Some(#[trigger] ws[j].file_path@) != current) ==> other_favorites(
            ws,
            current,
        ).len() > 0,
        other_favorites(ws, current).len() <= ws.len(),
    decreases ws.len(),
{
    if ws.len() > 0 {
        let pre = ws.drop_last();
        lemma_other_favorites(pre, current);
        let o = other_favorites(ws, current);
        assert forall|i: int| 0 <= i < o.len() implies ws.contains(#[trigger] o[i]) && Some(o[i].file_path@)
            != current by {
            if i < other_favorites(pre, current).len() {
                assert(o[i] == other_favorites(pre, current)[i]);
                assert(pre.contains(o[i]));
                let k = choose|k: int| 0 <= k < pre.len() && pre[k] == o[i];
                assert(ws[k] == o[i]);
            } else {
                assert(o[i] == ws.last());
                assert(ws[ws.len() - 1] == o[i]);
            }
        }
        if exists|j: int| 0 <= j < ws.len() && Some(#[trigger] ws[j].file_path@) != current {
            let j = choose|j: int| 0 <= j < ws.len() && Some(#[trigger] ws[j].file_path@) != current;
            if j < ws.len() - 1 {
                assert(pre[j] == ws[j]);
            }
        }
    }
}

/// The index a clock reading picks among `len` candidates.
pub open spec fn index_from_clock(len: nat, nanos: u128) -> nat {
    if len <= 1 {
        0
    } else {
        (nanos % (len as u128)) as nat
    }
}

/// The index among `len` candidates that a clock reading in nanoseconds picks:
/// the reading modulo `len`, or 0 when there is at most one candidate.
pub fn pseudo_random_index(len: usize, nanos: u128) -> (r: usize)
    ensures
        r == index_from_clock(len as nat, nanos),
        len > 0 ==> r < len,
{
    if len <= 1 {
        0
    } else {
        let m = len as u128;
        let i = nanos % m;
        assert(i < m);
        i as usize
    }
}

/// The candidates' positions in the favorites list.
fn rotation_candidates(favorites: &Vec<Wallpaper>, current_path: Option<&str>) -> (r: Vec<usize>)
    ensures
        r@.len() == rotation_pool(favorites@, db::opt_str_view(current_path)).len(),
        forall|i: int|
            0 <= i < r@.len() ==> #[trigger] r@[i] < favorites@.len() && favorites@[r@[i] as int]
                == rotation_pool(favorites@, db::opt_str_view(current_path))[i],
{
    let ghost cur = db::opt_str_view(current_path);
    let mut out: Vec<usize> = Vec::new();
    let mut i: usize = 0;
    while i < favorites.len()
        invariant
            i <= favorites@.len(),
            cur == db::opt_str_view(current_path),
            out@.len() == other_favorites(favorites@.take(i as int), cur).len(),
            forall|k: int|
                0 <= k < out@.len() ==> #[trigger] out@[k] < i && favorites@[out@[k] as int]
                    == other_favorites(favorites@.take(i as int), cur)[k],
        decreases favorites@.len() - i,
    {
        let keep = match current_path {
            Some(c) => !text::chars_eq_str(text::chars_of(favorites[i].file_path.as_str()).as_slice(), c),
            None => true,
        };
        assert(favorites@.take(i + 1).drop_last() == favorites@.take(i as int));
        assert(favorites@.take(i + 1).last() == favorites@[i as int]);
        assert(keep == (Some(favorites@[i as int].file_path@) != cur));
        if keep {
            out.push(i);
        }
        i = i + 1;
    }
    assert(favorites@.take(favorites@.len() as int) == favorites@);
    if out.len() == 0 {
        let mut all: Vec<usize> = Vec::new();
        let mut j: usize = 0;
        while j < favorites.len()
            invariant
                j <= favorites@.len(),
                all@.len() == j,
                forall|k: int| 0 <= k < j ==> #[trigger] all@[k] == k,
            decreases favorites@.len() - j,
        {
            all.push(j);
            j = j + 1;
        }
        return all;
    }
    out
}

/// The favorite a rotation applies, for a given clock reading in nanoseconds: the
/// candidate at the reading modulo their number.
pub fn pick_rotation_wallpaper_at(favorites: Vec<Wallpaper>, current_path: Option<&str>, nanos: u128) -> (r: Wallpaper)
    requires
        favorites@.len() > 0,
    ensures
        r == rotation_pool(favorites@, db::opt_str_view(current_path))[index_from_clock(
            rotation_pool(favorites@, db::opt_str_view(current_path)).len(),
            nanos,
        ) as int],
{
    let candidates = rotation_candidates(&favorites, current_path);
    let ghost pool = rotation_pool(favorites@, db::opt_str_view(current_path));
    assert(pool.len() > 0);
    let len = candidates.len();
    let index = pseudo_random_index(len, nanos);
    let pos = candidates[index];
    let mut favorites = favorites;
    favorites.swap_remove(pos)
}

/// The clock reading, in nanoseconds since the Unix epoch (0 for a clock before it),
/// from `std::time::SystemTime::now`. Nothing is promised of its value.
#[verifier::external_body]
fn clock_nanos() -> u128 {
    std::time::SystemTime::now()
        .duration_since(std::time::UNIX_EPOCH)
        .map(|d| d.as_nanos())
        .unwrap_or(0)
}

/// The favorite a rotation applies now: one of the candidates, chosen by the clock.
pub fn pick_rotation_wallpaper(favorites: Vec<Wallpaper>, current_path: Option<&str>) -> (r: Wallpaper)
    requires
        favorites@.len() > 0,
    ensures
        exists|i: int|
            0 <= i < rotation_pool(favorites@, db::opt_str_view(current_path)).len() && r
                == rotation_pool(favorites@, db::opt_str_view(current_path))[i],
{
    let nanos = clock_nanos();
    let ghost pool = rotation_pool(favorites@, db::opt_str_view(current_path));
    let ghost fav = favorites@;
    let flen = favorites.len();
    let r = pick_rotation_wallpaper_at(favorites, current_path, nanos);
    proof {
        lemma_other_favorites(fav, db::opt_str_view(current_path));
        let n = pool.len();
        assert(n > 0);
        assert(n <= flen);
        if n > 1 {
            let m: u128 = n as u128;
            assert(nanos % m < m) by (nonlinear_arith)
                requires
                    m > 0,
            ;
        }
        assert(index_from_clock(n, nanos) < n);
    }
    r
}

/// A rotation always picks a favorite, and never re-applies the current wallpaper
/// while another favorite exists.
pub proof fn lemma_rotation_avoids_current(favorites: Seq<Wallpaper>, current: Option<Seq<char>>, i: int)
    requires
        0 <= i < rotation_pool(favorites, current).len(),
    ensures
        favorites.contains(rotation_pool(favorites, current)[i]),
        (exists|j: int| 0 <= j < favorites.len() && Some(#[trigger] favorites[j].file_path@) != current)
            ==> Some(rotation_pool(favorites, current)[i].file_path@) != current,
{
    lemma_other_favorites(favorites, current);
    if other_favorites(favorites, current).len() == 0 {
        assert(favorites[i] == rotation_pool(favorites, current)[i]);
    }
}

/// A library entry whose file can no longer be used, and why.
#[derive(Debug)]
pub struct BrokenWallpaper {
    pub wallpaper: Wallpaper,
    pub reason: String,
}

/// What the file system says of a wallpaper's file, checked in this order.
#[derive(Debug, Clone)]
pub struct FileProbe {
    pub exists: bool,
    pub is_file: bool,
    /// The error of opening it for reading, if any.
    pub open_error: Option<String>,
}

/// Why an entry is broken: its file is missing, not a file, unreadable, or of a format
/// (for its media type) that is no longer supported.
pub open spec fn broken_reason(path: Seq<char>, media_type: Seq<char>, probe: FileProbe) -> Option<Seq<char>> {
    if !probe.exists {
        Some("File is missing"@)
    } else if !probe.is_file {
        Some("Path is not a file"@)
    } else if probe.open_error is Some {
        Some("File cannot be opened: "@ + probe.open_error->0@)
    } else if !media::is_wallpaper(path) {
        Some("Wallpaper format is no longer supported"@)
    } else if media_type == "video"@ && !media::is_video(path) {
        Some("Video format is no longer supported"@)
    } else if media_type == "image"@ && !media::is_static_image(path) {
        Some("Image format is no longer supported"@)
    } else {
        None
    }
}

pub fn broken_wallpaper_reason(wallpaper: &Wallpaper, probe: &FileProbe) -> (r: Option<String>)
    ensures
        text::opt_string_view(r) == broken_reason(wallpaper.file_path@, wallpaper.media_type@, *probe),
{
    if !probe.exists {
        return Some(text::owned("File is missing"));
    }
    if !probe.is_file {
        return Some(text::owned("Path is not a file"));
    }
    if let Some(e) = &probe.open_error {
        let mut msg = text::chars_of("File cannot be opened: ");
        text::push_str(&mut msg, e.as_str());
        return Some(text::string_from(msg.as_slice()));
    }
    let path = wallpaper.file_path.as_str();
    if !media::is_supported_wallpaper_path(path) {
        return Some(text::owned("Wallpaper format is no longer supported"));
    }
    let mt = text::chars_of(wallpaper.media_type.as_str());
    if text::chars_eq_str(mt.as_slice(), "video") && !media::is_supported_video_path(path) {
        return Some(text::owned("Video format is no longer supported"));
    }
    if text::chars_eq_str(mt.as_slice(), "image") && !media::is_supported_image_path(path) {
        return Some(text::owned("Image format is no longer supported"));
    }
    None
}

/// The broken entries with their reasons, in library order.
pub open spec fn broken_list(ws: Seq<Wallpaper>, probes: Seq<FileProbe>) -> Seq<(Wallpaper, Seq<char>)>
    decreases ws.len(),
{
    if ws.len() == 0 {
        Seq::empty()
    } else {
        let pre = broken_list(ws.drop_last(), probes);
        let i = ws.len() - 1;
        match broken_reason(ws[i].file_path@, ws[i].media_type@, probes[i]) {
            Some(reason) => pre.push((ws[i], reason)),
            None => pre,
        }
    }
}

pub open spec fn broken_view(v: Seq<BrokenWallpaper>) -> Seq<(Wallpaper, Seq<char>)> {
    Seq::new(v.len(), |i: int| (v[i].wallpaper, v[i].reason@))
}

/// The broken entries, in library order, each with its reason; `probes[i]` is what the
/// file system says of entry `i`.
pub fn detect_broken_wallpapers(wallpapers: Vec<Wallpaper>, probes: &Vec<FileProbe>) -> (r: Vec<BrokenWallpaper>)
    requires
        probes@.len() == wallpapers@.len(),
    ensures
        broken_view(r@) == broken_list(wallpapers@, probes@),
{
    let ghost ws = wallpapers@;
    let n = wallpapers.len();
    let mut rest = wallpapers;
    let mut reversed: Vec<Wallpaper> = Vec::new();
    while rest.len() > 0
        invariant
            rest@.len() <= n,
            n == ws.len(),
            rest@ == ws.take(rest@.len() as int),
            reversed@.len() == n - rest@.len(),
            forall|k: int| 0 <= k < reversed@.len() ==> #[trigger] reversed@[k] == ws[n - 1 - k],
        decreases rest@.len(),
    {
        let ghost before = rest@;
        let w = rest.pop().unwrap();
        assert(ws.take(before.len() as int).drop_last() == ws.take(rest@.len() as int));
        reversed.push(w);
    }
    let mut out: Vec<BrokenWallpaper> = Vec::new();
    let mut done: usize = 0;
    assert(ws.take(0) =~= Seq::<Wallpaper>::empty());
    assert(broken_view(out@) =~= Seq::<(Wallpaper, Seq<char>)>::empty());
    while done < n
        invariant
            done <= n,
            n == ws.len(),
            probes@.len() == n,
            reversed@.len() == n - done,
            forall|j: int| 0 <= j < reversed@.len() ==> #[trigger] reversed@[j] == ws[n - 1 - j],
            broken_view(out@) == broken_list(ws.take(done as int), probes@),
        decreases n - done,
    {
        let w = reversed.pop().unwrap();
        assert(w == ws[done as int]);
        assert(ws.take(done + 1).drop_last() == ws.take(done as int));
        assert(ws.take(done + 1)[done as int] == ws[done as int]);
        let reason = broken_wallpaper_reason(&w, &probes[done]);
        let ghost before = broken_view(out@);
        match reason {
            Some(reason) => {
                out.push(BrokenWallpaper { wallpaper: w, reason });
                assert(broken_view(out@) =~= before.push((ws[done as int], out@[out@.len() - 1].reason@)));
            },
            None => {},
        }
        done = done + 1;
    }
    assert(ws.take(n as int) == ws);
    out
}

/// A saved wallpaper can be restored when one is saved and its file exists.
pub fn can_restore_saved_path(path: Option<&str>, file_exists: bool) -> (r: bool)
    ensures
        r == (path is Some && file_exists),
{
    match path {
        Some(_) => file_exists,
        None => false,
    }
}

/// Whether the original desktop picture can be restored, and which it is.
#[derive(Debug, Clone)]
pub struct WallpaperBackupStatus {
    pub path: Option<String>,
    pub can_restore: bool,
}

/// Whether the previous wallpaper can be restored, and which it is.
#[derive(Debug, Clone)]
pub struct WallpaperRestoreStatus {
    pub path: Option<String>,
    pub can_restore: bool,
}

/// The error of a restore of the previous wallpaper, when it cannot happen: none is
/// saved, or its file is gone.
pub fn previous_restore_check(previous: Option<&str>, file_exists: bool) -> (r: Result<(), String>)
    ensures
        match previous {
            None => r matches Err(e) && e@ == "No previous wallpaper has been saved yet"@,
            Some(p) => if file_exists {
                r is Ok
            } else {
                r matches Err(e) && e@ == "Previous wallpaper file no longer exists: "@ + p@
            },
        },
{
    match previous {
        None => Err(text::owned("No previous wallpaper has been saved yet")),
        Some(p) => if file_exists {
            Ok(())
        } else {
            let mut msg = text::chars_of("Previous wallpaper file no longer exists: ");
            text::push_str(&mut msg, p);
            Err(text::string_from(msg.as_slice()))
        },
    }
}

/// The entry a removal took out of the library.
#[derive(Debug)]
pub struct RemoveWallpaperResult {
    pub wallpaper: Wallpaper,
}

/// Downloads kept in the app's cache are deleted with their library entry; other files
/// belong to the user and stay.
pub fn is_cached_source(source: Option<&str>) -> (r: bool)
    ensures
        r == match source {
            Some(s) => s@ == "wallhaven"@ || s@ == "motionbgs"@,
            None => false,
        },
{
    match source {
        Some(s) => {
            let c = text::chars_of(s);
            text::chars_eq_str(c.as_slice(), "wallhaven") || text::chars_eq_str(c.as_slice(), "motionbgs")
        },
        None => false,
    }
}

/// Only entries saved in the library (positive ids) can be removed, favorited or revealed.
pub fn library_id_check(id: i64, action: &str) -> (r: Result<(), String>)
    ensures
        id > 0 ==> r is Ok,
        id <= 0 ==> (r matches Err(e) && e@ == action@),
{
    if id <= 0 {
        Err(text::owned(action))
    } else {
        Ok(())
    }
}

/// The message of an id that the library does not hold.
pub fn wallpaper_not_found(id: i64) -> (r: String)
    ensures
        r@ == "Wallpaper "@ + text::int_text(id as int) + " was not found"@,
{
    let mut msg = text::chars_of("Wallpaper ");
    text::push_all(&mut msg, text::i64_text(id).as_slice());
    text::push_str(&mut msg, " was not found");
    text::string_from(msg.as_slice())
}

} // verus!
