//! Monitors, where wallpaper players are placed, and which desktop window hosts them.
use crate::text;
use vstd::prelude::*;

verus! {

/// One display, in virtual-desktop coordinates.
#[derive(Debug, Clone)]
pub struct Monitor {
    pub id: String,
    pub name: String,
    pub x: i32,
    pub y: i32,
    pub width: i32,
    pub height: i32,
    pub is_primary: bool,
}

/// The displays found by the last enumeration.
pub struct MonitorManager {
    monitors: Vec<Monitor>,
}

impl MonitorManager {
    pub closed spec fn monitors_view(&self) -> Seq<Monitor> {
        self.monitors@
    }

    /// A manager over the displays that an enumeration found, in the order found.
    pub fn new(monitors: Vec<Monitor>) -> (r: MonitorManager)
        ensures
            r.monitors_view() == monitors@,
    {
        MonitorManager { monitors }
    }

    /// Replaces the displays with those of a new enumeration.
    pub fn refresh(&mut self, monitors: Vec<Monitor>)
        ensures
            final(self).monitors_view() == monitors@,
    {
        self.monitors = monitors;
    }

    pub fn get_monitors(&self) -> (r: &[Monitor])
        ensures
            r@ == self.monitors_view(),
    {
        self.monitors.as_slice()
    }
}

/// The slot of a player that spans every display.
pub const ALL_MONITORS_SLOT: &'static str = "__all__";

/// Where one player window goes: its slot (a monitor id, or the all-displays slot)
/// and its rectangle.
#[derive(Debug, Clone)]
pub struct PlayerPlacement {
    pub slot: String,
    pub x: i32,
    pub y: i32,
    pub width: i32,
    pub height: i32,
}

pub open spec fn placement_of(m: Monitor, p: PlayerPlacement) -> bool {
    p.slot@ == m.id@ && p.x == m.x && p.y == m.y && p.width == m.width && p.height == m.height
}

/// A player covering exactly one monitor, in that monitor's slot.
pub fn placement_for_monitor(monitor: &Monitor) -> (r: PlayerPlacement)
    ensures
        placement_of(*monitor, r),
{
    PlayerPlacement {
        slot: text::owned(monitor.id.as_str()),
        x: monitor.x,
        y: monitor.y,
        width: monitor.width,
        height: monitor.height,
    }
}

/// One player per monitor, in monitor order; an error when there is no monitor.
pub fn placements_for_monitors(monitors: &[Monitor]) -> (r: Result<Vec<PlayerPlacement>, String>)
    ensures
        monitors@.len() == 0 <==> r is Err,
        r matches Err(e) ==> e@ == "No monitors were detected"@,
        r matches Ok(ps) ==> ps@.len() == monitors@.len() && forall|i: int|
            0 <= i < ps@.len() ==> placement_of(monitors@[i], #[trigger] ps@[i]),
{
    if monitors.len() == 0 {
        return Err(text::owned("No monitors were detected"));
    }
    let mut out: Vec<PlayerPlacement> = Vec::new();
    let mut i: usize = 0;
    while i < monitors.len()
        invariant
            i <= monitors@.len(),
            out@.len() == i,
            forall|k: int| 0 <= k < i ==> placement_of(monitors@[k], #[trigger] out@[k]),
        decreases monitors@.len() - i,
    {
        out.push(placement_for_monitor(&monitors[i]));
        i = i + 1;
    }
    Ok(out)
}

/// The first monitor with the given id.
pub fn monitor_by_id(monitors: &[Monitor], monitor_id: &str) -> (r: Result<Monitor, String>)
    ensures
        match r {
            Ok(m) => exists|i: int|
                0 <= i < monitors@.len() && monitors@[i].id@ == monitor_id@ && (forall|k: int|
                    0 <= k < i ==> monitors@[k].id@ != monitor_id@) && m.id@ == monitors@[i].id@
                    && m.name@ == monitors@[i].name@ && m.x == monitors@[i].x && m.y == monitors@[i].y
                    && m.width == monitors@[i].width && m.height == monitors@[i].height && m.is_primary
                    == monitors@[i].is_primary,
            Err(e) => (forall|k: int| 0 <= k < monitors@.len() ==> monitors@[k].id@ != monitor_id@)
                && e@ == "Monitor '"@ + monitor_id@ + "' was not found"@,
        },
{
    let want = text::chars_of(monitor_id);
    let mut i: usize = 0;
    while i < monitors.len()
        invariant
            i <= monitors@.len(),
            want@ == monitor_id@,
            forall|k: int| 0 <= k < i ==> monitors@[k].id@ != monitor_id@,
        decreases monitors@.len() - i,
    {
        let m = &monitors[i];
        if text::chars_eq(text::chars_of(m.id.as_str()).as_slice(), want.as_slice()) {
            return Ok(
                Monitor {
                    id: text::owned(m.id.as_str()),
                    name: text::owned(m.name.as_str()),
                    x: m.x,
                    y: m.y,
                    width: m.width,
                    height: m.height,
                    is_primary: m.is_primary,
                },
            );
        }
        i = i + 1;
    }
    let mut msg = text::chars_of("Monitor '");
    text::push_str(&mut msg, monitor_id);
    text::push_str(&mut msg, "' was not found");
    Err(text::string_from(msg.as_slice()))
}

/// The bounding box of all displays.
#[derive(Debug, Clone, Copy)]
pub struct DesktopBounds {
    pub x: i32,
    pub y: i32,
    pub width: i32,
    pub height: i32,
}

impl DesktopBounds {
    pub fn right(self) -> (r: i32)
        requires
            i32::MIN <= self.x + self.width <= i32::MAX,
        ensures
            r == self.x + self.width,
    {
        self.x + self.width
    }

    pub fn bottom(self) -> (r: i32)
        requires
            i32::MIN <= self.y + self.height <= i32::MAX,
        ensures
            r == self.y + self.height,
    {
        self.y + self.height
    }
}

/// The monitor edges and the spans between them fit in 32-bit coordinates.
pub open spec fn coordinates_fit(ms: Seq<Monitor>) -> bool {
    &&& forall|i: int| 0 <= i < ms.len() ==> i32::MIN <= #[trigger] ms[i].x + ms[i].width <= i32::MAX
    &&& forall|i: int| 0 <= i < ms.len() ==> i32::MIN <= #[trigger] ms[i].y + ms[i].height <= i32::MAX
    &&& forall|i: int, j: int|
        0 <= i < ms.len() && 0 <= j < ms.len() ==> i32::MIN <= #[trigger] ms[j].x + ms[j].width
            - #[trigger] ms[i].x <= i32::MAX
    &&& forall|i: int, j: int|
        0 <= i < ms.len() && 0 <= j < ms.len() ==> i32::MIN <= #[trigger] ms[j].y + ms[j].height
            - #[trigger] ms[i].y <= i32::MAX
}

/// The leftmost, topmost, rightmost and lowest display edges.
pub open spec fn min_left(ms: Seq<Monitor>) -> int
    decreases ms.len(),
{
    if ms.len() <= 1 {
        if ms.len() == 1 { ms[0].x as int } else { 0 }
    } else if (ms.last().x as int) < min_left(ms.drop_last()) {
        ms.last().x as int
    } else {
        min_left(ms.drop_last())
    }
}

pub open spec fn min_top(ms: Seq<Monitor>) -> int
    decreases ms.len(),
{
    if ms.len() <= 1 {
        if ms.len() == 1 { ms[0].y as int } else { 0 }
    } else if (ms.last().y as int) < min_top(ms.drop_last()) {
        ms.last().y as int
    } else {
        min_top(ms.drop_last())
    }
}

pub open spec fn max_right(ms: Seq<Monitor>) -> int
    decreases ms.len(),
{
    if ms.len() <= 1 {
        if ms.len() == 1 { ms[0].x + ms[0].width } else { 0 }
    } else if ms.last().x + ms.last().width > max_right(ms.drop_last()) {
        ms.last().x + ms.last().width
    } else {
        max_right(ms.drop_last())
    }
}

pub open spec fn max_bottom(ms: Seq<Monitor>) -> int
    decreases ms.len(),
{
    if ms.len() <= 1 {
        if ms.len() == 1 { ms[0].y + ms[0].height } else { 0 }
    } else if ms.last().y + ms.last().height > max_bottom(ms.drop_last()) {
        ms.last().y + ms.last().height
    } else {
        max_bottom(ms.drop_last())
    }
}

/// The extreme edges are edges of some display.
pub proof fn lemma_extremes_reached(ms: Seq<Monitor>)
    requires
        ms.len() > 0,
    ensures
        exists|i: int| 0 <= i < ms.len() && min_left(ms) == ms[i].x,
        exists|i: int| 0 <= i < ms.len() && min_top(ms) == ms[i].y,
        exists|i: int| 0 <= i < ms.len() && max_right(ms) == ms[i].x + ms[i].width,
        exists|i: int| 0 <= i < ms.len() && max_bottom(ms) == ms[i].y + ms[i].height,
    decreases ms.len(),
{
    if ms.len() > 1 {
        lemma_extremes_reached(ms.drop_last());
        let n = ms.len() - 1;
        assert(ms[n] == ms.last());
        assert forall|i: int| 0 <= i < ms.drop_last().len() implies ms.drop_last()[i] == ms[i] by {}
    } else {
        assert(min_left(ms) == ms[0].x);
    }
}

/// Every display lies within the extreme edges: none starts left of the leftmost
/// edge or above the topmost, and none reaches past the rightmost or the lowest.
pub proof fn lemma_bounds_contain_every_display(ms: Seq<Monitor>)
    ensures
        forall|i: int|
            0 <= i < ms.len() ==> min_left(ms) <= #[trigger] ms[i].x && min_top(ms) <= ms[i].y
                && ms[i].x + ms[i].width <= max_right(ms) && ms[i].y + ms[i].height <= max_bottom(ms),
    decreases ms.len(),
{
    if ms.len() > 1 {
        let pre = ms.drop_last();
        lemma_bounds_contain_every_display(pre);
        assert forall|i: int| 0 <= i < ms.len() - 1 implies #[trigger] ms[i] == pre[i] by {}
    }
}

/// The box from the leftmost and topmost display edge to the rightmost and lowest
/// one; an error without displays or when that box is empty.
pub fn virtual_desktop_bounds(monitors: &[Monitor]) -> (r: Result<DesktopBounds, String>)
    requires
        coordinates_fit(monitors@),
    ensures
        monitors@.len() == 0 ==> (r matches Err(e) && e@ == "No monitors were detected"@),
        monitors@.len() > 0 ==> match r {
            Ok(b) => b.x == min_left(monitors@) && b.y == min_top(monitors@) && b.width == max_right(
                monitors@,
            ) - min_left(monitors@) && b.height == max_bottom(monitors@) - min_top(monitors@)
                && b.width > 0 && b.height > 0,
            Err(_) => true,
        },
        r matches Ok(b) ==> forall|i: int|
            0 <= i < monitors@.len() ==> b.x <= #[trigger] monitors@[i].x && b.y <= monitors@[i].y
                && monitors@[i].x + monitors@[i].width <= b.x + b.width && monitors@[i].y
                + monitors@[i].height <= b.y + b.height,
        monitors@.len() > 0 ==> match r {
            Ok(_) => true,
            Err(e) => e@ == "Detected monitors have invalid bounds"@ && (max_right(monitors@) - min_left(
                monitors@,
            ) <= 0 || max_bottom(monitors@) - min_top(monitors@) <= 0),
        },
{
    if monitors.len() == 0 {
        return Err(text::owned("No monitors were detected"));
    }
    let ghost ms = monitors@;
    assert(i32::MIN <= ms[0].x + ms[0].width <= i32::MAX);
    assert(i32::MIN <= ms[0].y + ms[0].height <= i32::MAX);
    let mut left = monitors[0].x;
    let mut top = monitors[0].y;
    let mut right = monitors[0].x + monitors[0].width;
    let mut bottom = monitors[0].y + monitors[0].height;
    let mut i: usize = 1;
    assert(ms.take(1).len() == 1 && ms.take(1)[0] == ms[0]);
    while i < monitors.len()
        invariant
            1 <= i <= ms.len(),
            ms == monitors@,
            coordinates_fit(ms),
            left == min_left(ms.take(i as int)),
            top == min_top(ms.take(i as int)),
            right == max_right(ms.take(i as int)),
            bottom == max_bottom(ms.take(i as int)),
        decreases ms.len() - i,
    {
        let m = &monitors[i];
        assert(i32::MIN <= ms[i as int].x + ms[i as int].width <= i32::MAX);
        assert(i32::MIN <= ms[i as int].y + ms[i as int].height <= i32::MAX);
        assert(ms.take(i + 1).drop_last() == ms.take(i as int));
        assert(ms.take(i + 1).last() == ms[i as int]);
        if m.x < left {
            left = m.x;
        }
        if m.y < top {
            top = m.y;
        }
        if m.x + m.width > right {
            right = m.x + m.width;
        }
        if m.y + m.height > bottom {
            bottom = m.y + m.height;
        }
        i = i + 1;
    }
    assert(ms.take(ms.len() as int) == ms);
    proof {
        lemma_extremes_reached(ms);
        lemma_bounds_contain_every_display(ms);
        let li = choose|k: int| 0 <= k < ms.len() && min_left(ms) == ms[k].x;
        let ri = choose|k: int| 0 <= k < ms.len() && max_right(ms) == ms[k].x + ms[k].width;
        let ti = choose|k: int| 0 <= k < ms.len() && min_top(ms) == ms[k].y;
        let bi = choose|k: int| 0 <= k < ms.len() && max_bottom(ms) == ms[k].y + ms[k].height;
        assert(i32::MIN <= ms[ri].x + ms[ri].width - ms[li].x <= i32::MAX);
        assert(i32::MIN <= ms[bi].y + ms[bi].height - ms[ti].y <= i32::MAX);
    }
    let width = right - left;
    let height = bottom - top;
    if width <= 0 || height <= 0 {
        return Err(text::owned("Detected monitors have invalid bounds"));
    }
    Ok(DesktopBounds { x: left, y: top, width, height })
}

/// The usable client size of a window from its client rectangle: `None` when it has
/// no area.
pub fn client_size_of(left: i32, top: i32, right: i32, bottom: i32) -> (r: Option<(i32, i32)>)
    requires
        i32::MIN <= right - left <= i32::MAX,
        i32::MIN <= bottom - top <= i32::MAX,
    ensures
        r == (if right - left <= 0 || bottom - top <= 0 {
            None::<(i32, i32)>
        } else {
            Some(((right - left) as i32, (bottom - top) as i32))
        }),
{
    let width = right - left;
    let height = bottom - top;
    if width <= 0 || height <= 0 {
        None
    } else {
        Some((width, height))
    }
}

/// A window can host the wallpaper when it is visible and its client area is at least
/// as large as the virtual desktop.
pub fn is_usable_wallpaper_parent(visible: bool, client: Option<(i32, i32)>, bounds: DesktopBounds) -> (r: bool)
    ensures
        r == (visible && match client {
            Some((w, h)) => w >= bounds.width && h >= bounds.height,
            None => false,
        }),
{
    if !visible {
        return false;
    }
    match client {
        Some((w, h)) => w >= bounds.width && h >= bounds.height,
        None => false,
    }
}

/// How a player's rectangle is fitted into its parent window. A player on every
/// display fills a parent with a client area; any other player keeps its rectangle,
/// moved to the parent's client coordinates (`client_origin`, the screen point mapped
/// by the window system), and must lie inside the parent.
pub fn relative_to_parent(
    placement: PlayerPlacement,
    client: Option<(i32, i32)>,
    client_origin: Result<(i32, i32), String>,
) -> (r: Result<PlayerPlacement, String>)
    ensures
        placement.slot@ == ALL_MONITORS_SLOT@ ==> match client {
            Some((w, h)) => r matches Ok(p) && p.slot@ == placement.slot@ && p.x == 0 && p.y == 0
                && p.width == w && p.height == h,
            None => true,
        },
        !(placement.slot@ == ALL_MONITORS_SLOT@ && client is Some) ==> match client_origin {
            Err(e) => r matches Err(m) && m@ == e@,
            Ok((x, y)) => match client {
                None => r matches Err(m) && m@ == "Selected desktop parent has no usable client area for wallpaper placement"@,
                Some((pw, ph)) => if x < 0 || y < 0 || x + placement.width > pw || y + placement.height > ph {
                    r is Err
                } else {
                    r matches Ok(p) && p.slot@ == placement.slot@ && p.x == x && p.y == y && p.width
                        == placement.width && p.height == placement.height
                },
            },
        },
{
    let is_all = text::chars_eq_str(text::chars_of(placement.slot.as_str()).as_slice(), ALL_MONITORS_SLOT);
    if is_all {
        if let Some((w, h)) = client {
            return Ok(PlayerPlacement { slot: placement.slot, x: 0, y: 0, width: w, height: h });
        }
    }
    let (x, y) = match client_origin {
        Ok(p) => p,
        Err(e) => return Err(e),
    };
    let (pw, ph) = match client {
        Some(c) => c,
        None => return Err(text::owned("Selected desktop parent has no usable client area for wallpaper placement")),
    };
    if x < 0 || y < 0 || x as i64 + placement.width as i64 > pw as i64 || y as i64
        + placement.height as i64 > ph as i64 {
        let mut msg = text::chars_of("Selected desktop parent cannot cover wallpaper target '");
        text::push_str(&mut msg, placement.slot.as_str());
        text::push_str(&mut msg, "' at (");
        text::push_all(&mut msg, text::i64_text(x as i64).as_slice());
        text::push_str(&mut msg, ", ");
        text::push_all(&mut msg, text::i64_text(y as i64).as_slice());
        text::push_str(&mut msg, ") ");
        text::push_all(&mut msg, text::i64_text(placement.width as i64).as_slice());
        msg.push('x');
        text::push_all(&mut msg, text::i64_text(placement.height as i64).as_slice());
        text::push_str(&mut msg, " within parent client ");
        text::push_all(&mut msg, text::i64_text(pw as i64).as_slice());
        msg.push('x');
        text::push_all(&mut msg, text::i64_text(ph as i64).as_slice());
        return Err(text::string_from(msg.as_slice()));
    }
    Ok(PlayerPlacement { slot: placement.slot, x, y, width: placement.width, height: placement.height })
}

/// How the wallpaper host window was found.
#[derive(Debug, Clone, Copy, PartialEq, Eq, Structural)]
pub enum DesktopParentKind {
    WorkerW,
    RaisedDesktop,
    ProgmanFallback,
}

/// The window that hosts the wallpaper players, with the windows its z-order is kept against.
#[derive(Debug, Clone, Copy, PartialEq, Eq, Structural)]
pub struct DesktopParent {
    pub hwnd: isize,
    pub kind: DesktopParentKind,
    pub shell_defview: Option<isize>,
    pub workerw: Option<isize>,
}

pub open spec fn workerw_parent(hwnd: isize) -> DesktopParent {
    DesktopParent { hwnd, kind: DesktopParentKind::WorkerW, shell_defview: None, workerw: Some(hwnd) }
}

pub open spec fn progman_parent(hwnd: isize) -> DesktopParent {
    DesktopParent { hwnd, kind: DesktopParentKind::ProgmanFallback, shell_defview: None, workerw: None }
}

impl DesktopParent {
    pub fn workerw(hwnd: isize) -> (r: DesktopParent)
        ensures
            r == (DesktopParent { hwnd, kind: DesktopParentKind::WorkerW, shell_defview: None, workerw: Some(hwnd) }),
    {
        DesktopParent { hwnd, kind: DesktopParentKind::WorkerW, shell_defview: None, workerw: Some(hwnd) }
    }

    pub fn raised_desktop(progman: isize, shell_defview: isize, workerw: isize) -> (r: DesktopParent)
        ensures
            r == (DesktopParent {
                hwnd: progman,
                kind: DesktopParentKind::RaisedDesktop,
                shell_defview: Some(shell_defview),
                workerw: Some(workerw),
            }),
    {
        DesktopParent {
            hwnd: progman,
            kind: DesktopParentKind::RaisedDesktop,
            shell_defview: Some(shell_defview),
            workerw: Some(workerw),
        }
    }

    pub fn progman_fallback(hwnd: isize) -> (r: DesktopParent)
        ensures
            r == (DesktopParent { hwnd, kind: DesktopParentKind::ProgmanFallback, shell_defview: None, workerw: None }),
    {
        DesktopParent { hwnd, kind: DesktopParentKind::ProgmanFallback, shell_defview: None, workerw: None }
    }

    /// Only the raised desktop needs a layered child window.
    pub fn requires_layered_child(self) -> (r: bool)
        ensures
            r == (self.kind == DesktopParentKind::RaisedDesktop),
    {
        match self.kind {
            DesktopParentKind::RaisedDesktop => true,
            _ => false,
        }
    }
}

/// The raised desktop's host: Progman itself, when it is usable and holds both the
/// icon view and a WorkerW child.
pub fn raised_desktop_parent(
    progman: isize,
    progman_usable: bool,
    shell_defview: Option<isize>,
    workerw: Option<isize>,
) -> (r: Option<DesktopParent>)
    ensures
        r == (if progman_usable && shell_defview is Some && workerw is Some {
            Some(
                DesktopParent {
                    hwnd: progman,
                    kind: DesktopParentKind::RaisedDesktop,
                    shell_defview,
                    workerw,
                },
            )
        } else {
            None::<DesktopParent>
        }),
{
    if !progman_usable {
        return None;
    }
    match (shell_defview, workerw) {
        (Some(s), Some(w)) => Some(DesktopParent::raised_desktop(progman, s, w)),
        _ => None,
    }
}

/// How many times the desktop windows are searched for a host before giving up
/// on WorkerW.
pub const WORKERW_DISCOVERY_ATTEMPTS: u32 = 40;

/// The error when neither a WorkerW host nor Progman can hold the wallpaper.
pub fn workerw_initialization_error() -> (r: String)
    ensures
        r@ == "Could not initialize the Windows desktop wallpaper layer. Explorer did not expose a usable WorkerW host, and Progman was not usable as a fallback. Collect the wallpaper diagnostic log; this usually means Explorer's desktop window tree is in an unsupported state or another desktop customization process is still attached."@,
{
    text::owned(
        "Could not initialize the Windows desktop wallpaper layer. Explorer did not expose a usable WorkerW host, and Progman was not usable as a fallback. Collect the wallpaper diagnostic log; this usually means Explorer's desktop window tree is in an unsupported state or another desktop customization process is still attached.",
    )
}

/// A candidate host window and whether it is usable now.
#[derive(Debug, Clone, Copy, PartialEq, Eq, Structural)]
pub struct HostCandidate {
    pub hwnd: isize,
    pub usable: bool,
}

pub open spec fn usable_hwnd(c: Option<HostCandidate>) -> Option<isize> {
    match c {
        Some(c) => if c.usable {
            Some(c.hwnd)
        } else {
            None
        },
        None => None,
    }
}

/// The host chosen after one search of the desktop windows: the WorkerW behind the
/// icons, else the WorkerW found after the icons' parent, else a WorkerW without icons;
/// each only when usable.
pub fn choose_workerw(
    target: Option<HostCandidate>,
    after_icons: Option<HostCandidate>,
    fallback: Option<HostCandidate>,
) -> (r: Option<DesktopParent>)
    ensures
        r == match usable_hwnd(target) {
            Some(h) => Some(workerw_parent(h)),
            None => match usable_hwnd(after_icons) {
                Some(h) => Some(workerw_parent(h)),
                None => match usable_hwnd(fallback) {
                    Some(h) => Some(workerw_parent(h)),
                    None => None::<DesktopParent>,
                },
            },
        },
{
    if let Some(c) = target {
        if c.usable {
            return Some(DesktopParent::workerw(c.hwnd));
        }
    }
    if let Some(c) = after_icons {
        if c.usable {
            return Some(DesktopParent::workerw(c.hwnd));
        }
    }
    if let Some(c) = fallback {
        if c.usable {
            return Some(DesktopParent::workerw(c.hwnd));
        }
    }
    None
}

/// What a lookup of a window's icon view (`SHELLDLL_DefView`) child found.
#[derive(Debug, Clone, Copy, PartialEq, Eq, Structural)]
pub enum ShellViewLookup {
    Found(isize),
    Absent,
    Failed,
}

/// What was found behind an icon host window in z-order.
#[derive(Debug, Clone, Copy, PartialEq, Eq, Structural)]
pub enum BehindLookup {
    WorkerW(HostCandidate),
    Nothing,
    Failed,
}

/// One top-level window met while searching the desktop windows.
#[derive(Debug, Clone)]
pub struct HostObservation {
    pub hwnd: isize,
    pub class_name: String,
    /// Its icon view child.
    pub shell_view: ShellViewLookup,
    /// The first WorkerW behind it, looked up only when it holds the icon view.
    pub behind: BehindLookup,
    /// Whether it can host the wallpaper.
    pub usable: bool,
}

/// What a search of the desktop windows has found so far.
#[derive(Debug, Clone)]
pub struct WorkerWSearch {
    pub desktop_bounds: DesktopBounds,
    pub icon_parent: Option<isize>,
    pub icon_parent_class: Option<String>,
    pub icon_view: Option<isize>,
    pub target_workerw: Option<isize>,
    pub fallback_workerw: Option<isize>,
    pub workerw_count: usize,
    pub stopped_after_match: bool,
}

impl WorkerWSearch {
    pub fn new(desktop_bounds: DesktopBounds) -> (r: WorkerWSearch)
        ensures
            r.icon_parent is None && r.icon_parent_class is None && r.icon_view is None,
            r.target_workerw is None && r.fallback_workerw is None,
            r.workerw_count == 0 && !r.stopped_after_match,
            r.desktop_bounds == desktop_bounds,
    {
        WorkerWSearch {
            desktop_bounds,
            icon_parent: None,
            icon_parent_class: None,
            icon_view: None,
            target_workerw: None,
            fallback_workerw: None,
            workerw_count: 0,
            stopped_after_match: false,
        }
    }

    /// Takes in one window of the enumeration; `false` ends the enumeration. Only
    /// Progman and WorkerW windows count. A window holding the icon view becomes the
    /// icon parent, and a usable WorkerW behind it is the target, which ends the search.
    /// A usable WorkerW without the icon view is kept as the first fallback.
    pub fn observe(&mut self, obs: &HostObservation) -> (go_on: bool)
        requires
            old(self).workerw_count < usize::MAX,
        ensures
            ({
                let o = *old(self);
                let n = *final(self);
                let is_workerw = obs.class_name@ == "WorkerW"@;
                if !(obs.class_name@ == "Progman"@ || is_workerw) {
                    go_on && n.workerw_count == o.workerw_count && n.icon_parent == o.icon_parent
                        && n.icon_view == o.icon_view && n.target_workerw == o.target_workerw
                        && n.fallback_workerw == o.fallback_workerw && n.stopped_after_match
                        == o.stopped_after_match
                } else {
                    &&& n.workerw_count == o.workerw_count + (if is_workerw { 1int } else { 0int })
                    &&& match obs.shell_view {
                        ShellViewLookup::Found(view) => {
                            &&& n.icon_parent == Some(obs.hwnd)
                            &&& n.icon_view == Some(view)
                            &&& n.icon_parent_class matches Some(c) && c@ == obs.class_name@
                            &&& n.fallback_workerw == o.fallback_workerw
                            &&& match obs.behind {
                                BehindLookup::WorkerW(c) if c.usable => !go_on && n.target_workerw
                                    == Some(c.hwnd) && n.stopped_after_match,
                                _ => go_on && n.target_workerw == o.target_workerw
                                    && n.stopped_after_match == o.stopped_after_match,
                            }
                        },
                        ShellViewLookup::Absent => {
                            &&& go_on
                            &&& n.icon_parent == o.icon_parent && n.icon_view == o.icon_view
                            &&& n.target_workerw == o.target_workerw
                            &&& n.stopped_after_match == o.stopped_after_match
                            &&& n.fallback_workerw == (if is_workerw && o.fallback_workerw is None
                                && obs.usable {
                                Some(obs.hwnd)
                            } else {
                                o.fallback_workerw
                            })
                        },
                        ShellViewLookup::Failed => {
                            &&& go_on
                            &&& n.icon_parent == o.icon_parent && n.icon_view == o.icon_view
                            &&& n.target_workerw == o.target_workerw
                            &&& n.fallback_workerw == o.fallback_workerw
                            &&& n.stopped_after_match == o.stopped_after_match
                        },
                    }
                }
            }),
            final(self).desktop_bounds == old(self).desktop_bounds,
    {
        let class = text::chars_of(obs.class_name.as_str());
        let is_workerw = text::chars_eq_str(class.as_slice(), "WorkerW");
        let is_progman = text::chars_eq_str(class.as_slice(), "Progman");
        if !is_progman && !is_workerw {
            return true;
        }
        if is_workerw {
            self.workerw_count = self.workerw_count + 1;
        }
        match obs.shell_view {
            ShellViewLookup::Found(view) => {
                self.icon_parent = Some(obs.hwnd);
                self.icon_parent_class = Some(text::owned(obs.class_name.as_str()));
                self.icon_view = Some(view);
                match obs.behind {
                    BehindLookup::WorkerW(c) => {
                        if c.usable {
                            self.target_workerw = Some(c.hwnd);
                            self.stopped_after_match = true;
                            return false;
                        }
                        true
                    },
                    _ => true,
                }
            },
            ShellViewLookup::Absent => {
                if is_workerw && self.fallback_workerw.is_none() && obs.usable {
                    self.fallback_workerw = Some(obs.hwnd);
                }
                true
            },
            ShellViewLookup::Failed => true,
        }
    }
}

/// The host used when no WorkerW could be found: Progman itself, when usable.
pub fn progman_fallback_parent(progman: isize, progman_usable: bool) -> (r: Option<DesktopParent>)
    ensures
        r == (if progman_usable {
            Some(progman_parent(progman))
        } else {
            None::<DesktopParent>
        }),
{
    if progman_usable {
        Some(DesktopParent::progman_fallback(progman))
    } else {
        None
    }
}

/// The parent to retry under when the raised desktop rejects a player window: its
/// WorkerW, for a raised desktop that has one.
pub fn rejected_child_fallback(parent: DesktopParent) -> (r: Option<DesktopParent>)
    ensures
        r == (if parent.kind == DesktopParentKind::RaisedDesktop && parent.workerw is Some {
            Some(workerw_parent(parent.workerw->0))
        } else {
            None::<DesktopParent>
        }),
{
    match parent.kind {
        DesktopParentKind::RaisedDesktop => match parent.workerw {
            Some(w) => Some(DesktopParent::workerw(w)),
            None => None,
        },
        _ => None,
    }
}

/// The windows a player is ordered against: none outside the raised desktop; there,
/// the icon view (the player goes below it) and the WorkerW (kept at the bottom), both
/// of which must be known.
pub fn z_order_plan(parent: DesktopParent) -> (r: Result<Option<(isize, isize)>, String>)
    ensures
        parent.kind != DesktopParentKind::RaisedDesktop ==> r == Ok::<Option<(isize, isize)>, String>(None),
        parent.kind == DesktopParentKind::RaisedDesktop ==> match (parent.shell_defview, parent.workerw) {
            (Some(s), Some(w)) => r == Ok::<Option<(isize, isize)>, String>(Some((s, w))),
            (None, _) => r matches Err(e) && e@ == "Raised desktop parent is missing SHELLDLL_DefView for wallpaper z-order"@,
            (Some(_), None) => r matches Err(e) && e@ == "Raised desktop parent is missing WorkerW for wallpaper z-order"@,
        },
{
    match parent.kind {
        DesktopParentKind::RaisedDesktop => match parent.shell_defview {
            None => Err(text::owned("Raised desktop parent is missing SHELLDLL_DefView for wallpaper z-order")),
            Some(s) => match parent.workerw {
                None => Err(text::owned("Raised desktop parent is missing WorkerW for wallpaper z-order")),
                Some(w) => Ok(Some((s, w))),
            },
        },
        _ => Ok(None),
    }
}

} // verus!
