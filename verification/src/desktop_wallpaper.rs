//! The system's own (static) desktop wallpaper: reading the current one and
//! naming the display that a per-display wallpaper goes to.
use crate::auto_pause::Rect;
use crate::display::Monitor;
use crate::text;
use vstd::prelude::*;

verus! {

/// The length of a NUL-terminated wide string in a buffer: the units before
/// the first NUL, or the whole buffer when it holds none.
pub fn wide_text_len(buffer: &[u16]) -> (r: usize)
    ensures
        r <= buffer@.len(),
        forall|i: int| 0 <= i < r ==> buffer@[i] != 0u16,
        r < buffer@.len() ==> buffer@[r as int] == 0u16,
{
    let mut i: usize = 0;
    while i < buffer.len() && buffer[i] != 0
        invariant
            i <= buffer@.len(),
            forall|k: int| 0 <= k < i ==> buffer@[k] != 0u16,
        decreases buffer@.len() - i,
    {
        i = i + 1;
    }
    i
}

/// The current wallpaper read back from the system: the trimmed path, or
/// `None` when no file is set.
pub fn current_wallpaper_from(path_text: &str) -> (r: Option<String>)
    ensures
        match r {
            Some(p) => p@ == text::trim_seq(path_text@) && p@.len() > 0,
            None => text::trim_seq(path_text@).len() == 0,
        },
{
    let t = text::trim_str(path_text);
    if t.len() == 0 {
        None
    } else {
        Some(text::string_from(t.as_slice()))
    }
}

/// The display id a per-display wallpaper is asked for: trimmed, and not blank.
pub fn requested_monitor_id(monitor_id: &str) -> (r: Result<String, String>)
    ensures
        match r {
            Ok(id) => id@ == text::trim_seq(monitor_id@) && id@.len() > 0,
            Err(e) => text::trim_seq(monitor_id@).len() == 0 && e@ == "Monitor id cannot be empty"@,
        },
{
    let t = text::trim_str(monitor_id);
    if t.len() == 0 {
        Err(text::owned("Monitor id cannot be empty"))
    } else {
        Ok(text::string_from(t.as_slice()))
    }
}

/// A display rectangle of the wallpaper service covers exactly the display.
pub open spec fn rect_matches(monitor: Monitor, rect: Rect) -> bool {
    &&& rect.left == monitor.x
    &&& rect.top == monitor.y
    &&& rect.right - rect.left == monitor.width
    &&& rect.bottom - rect.top == monitor.height
}

/// Whether the wallpaper service's rectangle is that of `monitor`; the sizes
/// are compared as exact integers.
pub fn monitor_rect_matches(monitor: &Monitor, rect: Rect) -> (r: bool)
    ensures
        r == rect_matches(*monitor, rect),
{
    rect.left == monitor.x && rect.top == monitor.y && (rect.right as i64) - (rect.left as i64)
        == monitor.width as i64 && (rect.bottom as i64) - (rect.top as i64) == monitor.height as i64
}

/// The first display with the given id.
pub open spec fn monitor_with_id(monitors: Seq<Monitor>, id: Seq<char>) -> Option<Monitor>
    decreases monitors.len(),
{
    if monitors.len() == 0 {
        None
    } else if monitors[0].id@ == id {
        Some(monitors[0])
    } else {
        monitor_with_id(monitors.drop_first(), id)
    }
}

/// The first of the service's display paths whose rectangle could be read
/// and matches `monitor`.
pub open spec fn path_matching(paths: Seq<(String, Option<Rect>)>, monitor: Monitor) -> Option<Seq<char>>
    decreases paths.len(),
{
    if paths.len() == 0 {
        None
    } else if paths[0].1 matches Some(rect) && rect_matches(monitor, rect) {
        Some(paths[0].0@)
    } else {
        path_matching(paths.drop_first(), monitor)
    }
}

/// Which display path of the wallpaper service a wallpaper for the display
/// `requested_id` goes to. A requested id that the service knows is used as
/// it is; otherwise the display with that id is looked up, and the first
/// service path whose rectangle matches it is taken.
pub open spec fn resolved_monitor_path(
    requested_id: Seq<char>,
    known_to_service: bool,
    monitors: Seq<Monitor>,
    paths: Seq<(String, Option<Rect>)>,
) -> Result<Seq<char>, Seq<char>> {
    if known_to_service {
        Ok(requested_id)
    } else {
        match monitor_with_id(monitors, requested_id) {
            None => Err("Monitor '"@ + requested_id + "' was not found"@),
            Some(m) => match path_matching(paths, m) {
                Some(p) => Ok(p),
                None => Err(
                    "Monitor '"@ + requested_id + "' was not found in Windows desktop wallpaper service"@,
                ),
            },
        }
    }
}

fn find_monitor(monitors: &Vec<Monitor>, id: &str) -> (r: Option<usize>)
    ensures
        match r {
            Some(i) => i < monitors@.len() && monitor_with_id(monitors@, id@) == Some(monitors@[i as int]),
            None => monitor_with_id(monitors@, id@) is None,
        },
{
    let target = text::chars_of(id);
    let mut i: usize = 0;
    assert(monitors@.skip(0) == monitors@);
    while i < monitors.len()
        invariant
            i <= monitors@.len(),
            target@ == id@,
            monitor_with_id(monitors@, id@) == monitor_with_id(monitors@.skip(i as int), id@),
        decreases monitors@.len() - i,
    {
        assert(monitors@.skip(i as int)[0] == monitors@[i as int]);
        let c = text::chars_of(monitors[i].id.as_str());
        if text::chars_eq(c.as_slice(), target.as_slice()) {
            return Some(i);
        }
        assert(monitors@.skip(i as int).drop_first() == monitors@.skip(i + 1));
        i = i + 1;
    }
    None
}

/// Resolves the service's display path for `requested_id`; `known_to_service`
/// says whether the service accepted the id itself, and `paths` holds each of
/// the service's display paths with its rectangle, when that could be read.
pub fn resolve_desktop_monitor_path(
    requested_id: &str,
    known_to_service: bool,
    monitors: &Vec<Monitor>,
    paths: &Vec<(String, Option<Rect>)>,
) -> (r: Result<String, String>)
    ensures
        match r {
            Ok(p) => resolved_monitor_path(requested_id@, known_to_service, monitors@, paths@) == Ok::<
                Seq<char>,
                Seq<char>,
            >(p@),
            Err(e) => resolved_monitor_path(requested_id@, known_to_service, monitors@, paths@)
                == Err::<Seq<char>, Seq<char>>(e@),
        },
{
    if known_to_service {
        return Ok(text::owned(requested_id));
    }
    let m = match find_monitor(monitors, requested_id) {
        Some(i) => i,
        None => {
            let mut v = text::chars_of("Monitor '");
            text::push_str(&mut v, requested_id);
            text::push_str(&mut v, "' was not found");
            return Err(text::string_from(v.as_slice()));
        },
    };
    let monitor = &monitors[m];
    assert(*monitor == monitors@[m as int]);
    let mut i: usize = 0;
    assert(paths@.skip(0) == paths@);
    while i < paths.len()
        invariant
            i <= paths@.len(),
            path_matching(paths@, *monitor) == path_matching(paths@.skip(i as int), *monitor),
            !known_to_service,
            monitor_with_id(monitors@, requested_id@) == Some(*monitor),
        decreases paths@.len() - i,
    {
        assert(paths@.skip(i as int)[0] == paths@[i as int]);
        let hit = match paths[i].1 {
            Some(rect) => monitor_rect_matches(monitor, rect),
            None => false,
        };
        if hit {
            assert(path_matching(paths@.skip(i as int), *monitor) == Some(paths@[i as int].0@));
            return Ok(text::owned(paths[i].0.as_str()));
        }
        assert(paths@.skip(i as int).drop_first() == paths@.skip(i + 1));
        i = i + 1;
    }
    let mut v = text::chars_of("Monitor '");
    text::push_str(&mut v, requested_id);
    text::push_str(&mut v, "' was not found in Windows desktop wallpaper service");
    Err(text::string_from(v.as_slice()))
}

} // verus!
