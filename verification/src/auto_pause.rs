//! When live wallpapers pause by themselves: the rules, and the geometry of a desktop
//! hidden behind other windows.
use crate::settings::Settings;
use crate::text;
use vstd::prelude::*;

verus! {

/// What the system looked like at one poll; each flag is only measured when its rule
/// is enabled.
#[derive(Debug, Default, Clone, Copy)]
pub struct AutoPauseSnapshot {
    pub on_battery: bool,
    pub fullscreen_app: bool,
    pub desktop_occluded: bool,
    pub remote_session: bool,
    pub display_unavailable: bool,
}

/// Pause when the feature is on and an enabled rule matches.
pub open spec fn pause_wanted(s: Settings, snap: AutoPauseSnapshot) -> bool {
    s.auto_pause_enabled && ((s.auto_pause_on_battery && snap.on_battery) || (
    s.auto_pause_fullscreen_apps && snap.fullscreen_app) || (s.auto_pause_occluded
        && snap.desktop_occluded) || (s.auto_pause_remote_session && snap.remote_session) || (
    s.auto_pause_display_sleep && snap.display_unavailable))
}

/// Each rule works alone: with auto-pause on, an enabled rule whose condition holds
/// pauses whatever the others say; nothing pauses while auto-pause is off, and nothing
/// pauses unless some enabled rule's condition holds.
pub proof fn lemma_each_enabled_rule_pauses(s: Settings, snap: AutoPauseSnapshot)
    ensures
        s.auto_pause_enabled && s.auto_pause_on_battery && snap.on_battery ==> pause_wanted(s, snap),
        s.auto_pause_enabled && s.auto_pause_fullscreen_apps && snap.fullscreen_app ==> pause_wanted(s, snap),
        s.auto_pause_enabled && s.auto_pause_occluded && snap.desktop_occluded ==> pause_wanted(s, snap),
        s.auto_pause_enabled && s.auto_pause_remote_session && snap.remote_session ==> pause_wanted(s, snap),
        s.auto_pause_enabled && s.auto_pause_display_sleep && snap.display_unavailable ==> pause_wanted(
            s,
            snap,
        ),
        !s.auto_pause_enabled ==> !pause_wanted(s, snap),
        pause_wanted(s, snap) ==> (s.auto_pause_on_battery && snap.on_battery) || (s.auto_pause_fullscreen_apps
            && snap.fullscreen_app) || (s.auto_pause_occluded && snap.desktop_occluded) || (
        s.auto_pause_remote_session && snap.remote_session) || (s.auto_pause_display_sleep
            && snap.display_unavailable),
{
}

pub fn should_auto_pause(settings: &Settings, snapshot: AutoPauseSnapshot) -> (r: bool)
    ensures
        r == pause_wanted(*settings, snapshot),
        settings.auto_pause_enabled && settings.auto_pause_on_battery && snapshot.on_battery ==> r,
        settings.auto_pause_enabled && settings.auto_pause_fullscreen_apps && snapshot.fullscreen_app ==> r,
        settings.auto_pause_enabled && settings.auto_pause_occluded && snapshot.desktop_occluded ==> r,
        settings.auto_pause_enabled && settings.auto_pause_remote_session && snapshot.remote_session ==> r,
        settings.auto_pause_enabled && settings.auto_pause_display_sleep && snapshot.display_unavailable ==> r,
        !settings.auto_pause_enabled ==> !r,
{
    proof {
        lemma_each_enabled_rule_pauses(*settings, snapshot);
    }
    settings.auto_pause_enabled && ((settings.auto_pause_on_battery && snapshot.on_battery) || (
    settings.auto_pause_fullscreen_apps && snapshot.fullscreen_app) || (
    settings.auto_pause_occluded && snapshot.desktop_occluded) || (
    settings.auto_pause_remote_session && snapshot.remote_session) || (
    settings.auto_pause_display_sleep && snapshot.display_unavailable))
}

/// The auto-pause state a poll asks for: paused only while a wallpaper runs and a
/// rule holds.
pub fn desired_auto_pause(settings: &Settings, runtime_active: bool, snapshot: AutoPauseSnapshot) -> (r: bool)
    ensures
        r == (settings.auto_pause_enabled && runtime_active && pause_wanted(*settings, snapshot)),
{
    settings.auto_pause_enabled && runtime_active && should_auto_pause(settings, snapshot)
}

/// A rectangle in screen pixels; it holds the pixels from `left` up to, not including,
/// `right`, and from `top` up to, not including, `bottom`.
#[derive(Debug, Clone, Copy, PartialEq, Eq, Structural)]
pub struct Rect {
    pub left: i32,
    pub top: i32,
    pub right: i32,
    pub bottom: i32,
}

/// A window spans a monitor: at least as wide and tall, and reaching past each edge.
pub open spec fn spans(window: Rect, monitor: Rect) -> bool {
    &&& window.right - window.left >= monitor.right - monitor.left
    &&& window.bottom - window.top >= monitor.bottom - monitor.top
    &&& window.left <= monitor.left
    &&& window.top <= monitor.top
    &&& window.right >= monitor.right
    &&& window.bottom >= monitor.bottom
}

pub fn covers_monitor(window: Rect, monitor: Rect) -> (r: bool)
    ensures
        r == spans(window, monitor),
{
    let window_width = window.right as i64 - window.left as i64;
    let window_height = window.bottom as i64 - window.top as i64;
    let monitor_width = monitor.right as i64 - monitor.left as i64;
    let monitor_height = monitor.bottom as i64 - monitor.top as i64;
    window_width >= monitor_width && window_height >= monitor_height && window.left <= monitor.left
        && window.top <= monitor.top && window.right >= monitor.right && window.bottom
        >= monitor.bottom
}

/// The window classes of the desktop shell itself.
pub fn is_desktop_shell_class(class_name: &str) -> (r: bool)
    ensures
        r == (class_name@ == "Progman"@ || class_name@ == "WorkerW"@),
{
    let c = text::chars_of(class_name);
    text::chars_eq_str(c.as_slice(), "Progman") || text::chars_eq_str(c.as_slice(), "WorkerW")
}

/// What is known of one top-level window when the desktop's cover is measured.
#[derive(Debug, Clone)]
pub struct WindowSample {
    pub visible: bool,
    pub minimized: bool,
    pub click_through: bool,
    pub cloaked: bool,
    pub own_process: bool,
    pub class_name: String,
    /// `None` where the window's rectangle could not be read.
    pub rect: Option<Rect>,
}

/// A window hides what lies behind it when it is shown, not minimized, not a
/// click-through overlay, not cloaked, not ours, not the shell, and has area.
pub open spec fn hides_desktop(w: WindowSample) -> bool {
    &&& w.visible
    &&& !w.minimized
    &&& !w.click_through
    &&& !w.cloaked
    &&& !w.own_process
    &&& !(w.class_name@ == "Progman"@ || w.class_name@ == "WorkerW"@)
    &&& w.rect matches Some(r) && r.right > r.left && r.bottom > r.top
}

pub open spec fn contains_point(r: Rect, x: int, y: int) -> bool {
    r.left <= x < r.right && r.top <= y < r.bottom
}

/// Some rectangle from index `from` on holds the pixel.
pub open spec fn point_covered(ws: Seq<Rect>, from: int, x: int, y: int) -> bool {
    exists|j: int| from <= j < ws.len() && #[trigger] contains_point(ws[j], x, y)
}

/// Every pixel of `m` lies in one of the rectangles from index `from` on.
pub open spec fn covered_from(m: Rect, ws: Seq<Rect>, from: int) -> bool {
    forall|x: int, y: int| #[trigger] contains_point(m, x, y) ==> point_covered(ws, from, x, y)
}

/// Every monitor (there is at least one) is hidden entirely by the windows.
pub open spec fn all_hidden(monitors: Seq<Rect>, ws: Seq<Rect>) -> bool {
    monitors.len() > 0 && forall|k: int| 0 <= k < monitors.len() ==> covered_from(#[trigger] monitors[k], ws, 0)
}

fn max_i32(a: i32, b: i32) -> (r: i32)
    ensures
        r == if a >= b { a } else { b },
{
    if a >= b {
        a
    } else {
        b
    }
}

fn min_i32(a: i32, b: i32) -> (r: i32)
    ensures
        r == if a <= b { a } else { b },
{
    if a <= b {
        a
    } else {
        b
    }
}

/// Whether every pixel of `m` lies in one of `ws[from..]`: what `m` keeps outside the
/// first of them is cut into at most four bands, each checked against the rest.
pub fn rect_covered(m: Rect, ws: &Vec<Rect>, from: usize) -> (r: bool)
    requires
        from <= ws@.len(),
    ensures
        r == covered_from(m, ws@, from as int),
    decreases ws@.len() - from,
{
    if m.right <= m.left || m.bottom <= m.top {
        assert forall|x: int, y: int| #[trigger] contains_point(m, x, y) implies point_covered(
            ws@,
            from as int,
            x,
            y,
        ) by {}
        return true;
    }
    if from == ws.len() {
        assert(contains_point(m, m.left as int, m.top as int));
        return false;
    }
    let w = ws[from];
    let disjoint = w.right <= m.left || w.left >= m.right || w.bottom <= m.top || w.top >= m.bottom;
    if disjoint {
        let r = rect_covered(m, ws, from + 1);
        assert(r == covered_from(m, ws@, from as int)) by {
            if r {
                assert forall|x: int, y: int| #[trigger] contains_point(m, x, y) implies point_covered(
                    ws@,
                    from as int,
                    x,
                    y,
                ) by {
                    assert(point_covered(ws@, from + 1, x, y));
                    let j = choose|j: int| from + 1 <= j < ws@.len() && #[trigger] contains_point(ws@[j], x, y);
                    assert(contains_point(ws@[j], x, y));
                }
            } else {
                let (x, y) = choose|x: int, y: int| #[trigger] contains_point(m, x, y) && !point_covered(ws@, from + 1, x, y);
                assert(!contains_point(ws@[from as int], x, y));
                if point_covered(ws@, from as int, x, y) {
                    let j = choose|j: int| from <= j < ws@.len() && #[trigger] contains_point(ws@[j], x, y);
                    assert(j != from);
                    assert(contains_point(ws@[j], x, y));
                }
            }
        }
        return r;
    }
    let mid_top = max_i32(m.top, w.top);
    let mid_bottom = min_i32(m.bottom, w.bottom);
    let top = Rect { left: m.left, top: m.top, right: m.right, bottom: mid_top };
    let bottom = Rect { left: m.left, top: mid_bottom, right: m.right, bottom: m.bottom };
    let left = Rect { left: m.left, top: mid_top, right: max_i32(m.left, w.left), bottom: mid_bottom };
    let right = Rect { left: min_i32(m.right, w.right), top: mid_top, right: m.right, bottom: mid_bottom };
    let r = rect_covered(top, ws, from + 1) && rect_covered(bottom, ws, from + 1) && rect_covered(
        left,
        ws,
        from + 1,
    ) && rect_covered(right, ws, from + 1);
    proof {
        let ghost wf = ws@[from as int];
        assert(wf == w);
        // A pixel of `m` outside `w` lies in one of the bands.
        assert forall|x: int, y: int| contains_point(m, x, y) && !contains_point(w, x, y) implies (
        contains_point(top, x, y) || contains_point(bottom, x, y) || contains_point(left, x, y)
            || contains_point(right, x, y)) by {}
        // Each band lies in `m` and outside `w`.
        assert forall|x: int, y: int| contains_point(top, x, y) || contains_point(bottom, x, y)
            || contains_point(left, x, y) || contains_point(right, x, y) implies contains_point(
            m,
            x,
            y,
        ) && !contains_point(w, x, y) by {}
        if r {
            assert forall|x: int, y: int| #[trigger] contains_point(m, x, y) implies point_covered(
                ws@,
                from as int,
                x,
                y,
            ) by {
                if contains_point(w, x, y) {
                    assert(contains_point(ws@[from as int], x, y));
                } else {
                    if contains_point(top, x, y) {
                        assert(point_covered(ws@, from + 1, x, y));
                    } else if contains_point(bottom, x, y) {
                        assert(point_covered(ws@, from + 1, x, y));
                    } else if contains_point(left, x, y) {
                        assert(point_covered(ws@, from + 1, x, y));
                    } else {
                        assert(contains_point(right, x, y));
                        assert(point_covered(ws@, from + 1, x, y));
                    }
                    let j = choose|j: int| from + 1 <= j < ws@.len() && #[trigger] contains_point(ws@[j], x, y);
                    assert(contains_point(ws@[j], x, y));
                }
            }
        } else {
            let band = if !covered_from(top, ws@, from + 1) {
                top
            } else if !covered_from(bottom, ws@, from + 1) {
                bottom
            } else if !covered_from(left, ws@, from + 1) {
                left
            } else {
                right
            };
            assert(!covered_from(band, ws@, from + 1));
            let (x, y) = choose|x: int, y: int| #[trigger] contains_point(band, x, y) && !point_covered(ws@, from + 1, x, y);
            assert(contains_point(m, x, y) && !contains_point(w, x, y));
            if point_covered(ws@, from as int, x, y) {
                let j = choose|j: int| from <= j < ws@.len() && #[trigger] contains_point(ws@[j], x, y);
                assert(j != from);
                assert(contains_point(ws@[j], x, y));
            }
            assert(!point_covered(ws@, from as int, x, y));
            assert(contains_point(m, x, y));
        }
    }
    r
}

pub open spec fn hiding_rects(windows: Seq<WindowSample>) -> Seq<Rect>
    decreases windows.len(),
{
    if windows.len() == 0 {
        Seq::empty()
    } else if hides_desktop(windows.last()) {
        hiding_rects(windows.drop_last()).push(windows.last().rect->0)
    } else {
        hiding_rects(windows.drop_last())
    }
}

/// The rectangles of the windows that hide the desktop, in order.
pub fn hiding_windows(windows: &Vec<WindowSample>) -> (r: Vec<Rect>)
    ensures
        r@ == hiding_rects(windows@),
{
    let mut out: Vec<Rect> = Vec::new();
    let mut i: usize = 0;
    while i < windows.len()
        invariant
            i <= windows@.len(),
            out@ == hiding_rects(windows@.take(i as int)),
        decreases windows@.len() - i,
    {
        let w = &windows[i];
        assert(windows@.take(i + 1).drop_last() == windows@.take(i as int));
        assert(windows@.take(i + 1).last() == windows@[i as int]);
        let keep = w.visible && !w.minimized && !w.click_through && !w.cloaked && !w.own_process
            && !is_desktop_shell_class(w.class_name.as_str()) && match w.rect {
            Some(r) => r.right > r.left && r.bottom > r.top,
            None => false,
        };
        if keep {
            out.push(w.rect.unwrap());
        }
        i = i + 1;
    }
    assert(windows@.take(windows@.len() as int) == windows@);
    out
}

/// Whether the desktop is hidden on every monitor: there is at least one monitor, and
/// each is covered entirely by windows that hide the desktop.
pub fn all_monitors_occluded(windows: &Vec<WindowSample>, monitors: &Vec<Rect>) -> (r: bool)
    ensures
        r == all_hidden(monitors@, hiding_rects(windows@)),
{
    let rects = hiding_windows(windows);
    if monitors.len() == 0 {
        return false;
    }
    let mut i: usize = 0;
    while i < monitors.len()
        invariant
            i <= monitors@.len(),
            rects@ == hiding_rects(windows@),
            forall|k: int| 0 <= k < i ==> covered_from(#[trigger] monitors@[k], rects@, 0),
        decreases monitors@.len() - i,
    {
        if !rect_covered(monitors[i], &rects, 0) {
            return false;
        }
        i = i + 1;
    }
    true
}

} // verus!
