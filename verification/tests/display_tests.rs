use wallscape::display::{
    choose_workerw, client_size_of, is_usable_wallpaper_parent, monitor_by_id,
    progman_fallback_parent, raised_desktop_parent, rejected_child_fallback, relative_to_parent,
    virtual_desktop_bounds, workerw_initialization_error, z_order_plan, BehindLookup,
    DesktopBounds, DesktopParent, DesktopParentKind, HostCandidate, HostObservation, Monitor,
    MonitorManager, PlayerPlacement, ShellViewLookup, WorkerWSearch, ALL_MONITORS_SLOT,
};
use wallscape::runtime::{
    parse_fit_mode, runtime_status, slots_for_target, slots_to_adjust, FitMode, PauseSource,
    PauseState, WallpaperTarget,
};

fn monitor(id: &str, x: i32, y: i32, width: i32, height: i32) -> Monitor {
    Monitor {
        id: id.to_string(),
        name: id.to_string(),
        x,
        y,
        width,
        height,
        is_primary: x == 0 && y == 0,
    }
}

fn bounds() -> DesktopBounds {
    DesktopBounds { x: -1920, y: 0, width: 4480, height: 1440 }
}

#[test]
fn virtual_desktop_spans_every_display() {
    let monitors = vec![
        monitor("DISPLAY1", 0, 0, 2560, 1440),
        monitor("DISPLAY2", -1920, 180, 1920, 1080),
    ];
    let b = virtual_desktop_bounds(&monitors).expect("bounds");
    assert_eq!((b.x, b.y, b.width, b.height), (-1920, 0, 4480, 1440));
    assert_eq!(b.right(), 2560);
    assert_eq!(b.bottom(), 1440);
    assert_eq!(
        virtual_desktop_bounds(&[]).map(|b| b.width),
        Err("No monitors were detected".to_string())
    );
}

#[test]
fn monitors_are_looked_up_by_id() {
    let manager = MonitorManager::new(vec![monitor("DISPLAY1", 0, 0, 1920, 1080)]);
    assert_eq!(manager.get_monitors().len(), 1);
    assert_eq!(monitor_by_id(manager.get_monitors(), "DISPLAY1").map(|m| m.width), Ok(1920));
    assert_eq!(
        monitor_by_id(manager.get_monitors(), "DISPLAY7").map(|m| m.width),
        Err("Monitor 'DISPLAY7' was not found".to_string())
    );
}

#[test]
fn wallpaper_parent_must_cover_the_desktop() {
    assert_eq!(client_size_of(0, 0, 4480, 1440), Some((4480, 1440)));
    assert_eq!(client_size_of(10, 0, 10, 1440), None);
    assert!(is_usable_wallpaper_parent(true, Some((4480, 1440)), bounds()));
    assert!(!is_usable_wallpaper_parent(false, Some((4480, 1440)), bounds()));
    assert!(!is_usable_wallpaper_parent(true, Some((4479, 1440)), bounds()));
    assert!(!is_usable_wallpaper_parent(true, None, bounds()));
}

#[test]
fn placements_are_moved_into_the_parent() {
    let all = PlayerPlacement {
        slot: ALL_MONITORS_SLOT.to_string(),
        x: -1920,
        y: 0,
        width: 4480,
        height: 1440,
    };
    let filled = relative_to_parent(all, Some((4480, 1440)), Ok((0, 0))).expect("fills");
    assert_eq!((filled.x, filled.y, filled.width, filled.height), (0, 0, 4480, 1440));

    let one = PlayerPlacement { slot: "DISPLAY2".to_string(), x: -1920, y: 180, width: 1920, height: 1080 };
    let moved = relative_to_parent(one.clone(), Some((4480, 1440)), Ok((0, 180))).expect("fits");
    assert_eq!((moved.x, moved.y), (0, 180));
    assert!(relative_to_parent(one.clone(), Some((1000, 1000)), Ok((0, 180))).is_err());
    assert_eq!(
        relative_to_parent(one.clone(), None, Ok((0, 0))).map(|p| p.x),
        Err("Selected desktop parent has no usable client area for wallpaper placement".to_string())
    );
    assert_eq!(
        relative_to_parent(one, Some((4480, 1440)), Err("ScreenToClient failed".to_string())).map(|p| p.x),
        Err("ScreenToClient failed".to_string())
    );
}

fn observation(hwnd: isize, class: &str, shell_view: ShellViewLookup, behind: BehindLookup, usable: bool) -> HostObservation {
    HostObservation {
        hwnd,
        class_name: class.to_string(),
        shell_view,
        behind,
        usable,
    }
}

#[test]
fn workerw_search_stops_at_the_host_behind_the_icons() {
    let mut search = WorkerWSearch::new(bounds());
    assert!(search.observe(&observation(1, "Shell_TrayWnd", ShellViewLookup::Absent, BehindLookup::Nothing, true)));
    assert!(search.observe(&observation(2, "WorkerW", ShellViewLookup::Absent, BehindLookup::Nothing, true)));
    assert_eq!(search.fallback_workerw, Some(2));
    let go_on = search.observe(&observation(
        3,
        "Progman",
        ShellViewLookup::Found(30),
        BehindLookup::WorkerW(HostCandidate { hwnd: 4, usable: true }),
        true,
    ));
    assert!(!go_on);
    assert_eq!(search.icon_parent, Some(3));
    assert_eq!(search.icon_view, Some(30));
    assert_eq!(search.target_workerw, Some(4));
    assert_eq!(search.workerw_count, 1);
}

#[test]
fn desktop_host_choice_falls_back_in_order() {
    let usable = |hwnd| Some(HostCandidate { hwnd, usable: true });
    let unusable = |hwnd| Some(HostCandidate { hwnd, usable: false });
    assert_eq!(choose_workerw(usable(1), usable(2), usable(3)).map(|p| p.hwnd), Some(1));
    assert_eq!(choose_workerw(unusable(1), usable(2), usable(3)).map(|p| p.hwnd), Some(2));
    assert_eq!(choose_workerw(None, None, usable(3)).map(|p| p.hwnd), Some(3));
    assert_eq!(choose_workerw(None, unusable(2), None), None);
    assert_eq!(progman_fallback_parent(9, true).map(|p| p.kind), Some(DesktopParentKind::ProgmanFallback));
    assert_eq!(progman_fallback_parent(9, false), None);
    assert!(workerw_initialization_error().starts_with("Could not initialize the Windows desktop wallpaper layer."));
}

#[test]
fn raised_desktop_orders_players_between_icons_and_workerw() {
    let raised = raised_desktop_parent(10, true, Some(11), Some(12)).expect("raised desktop");
    assert!(raised.requires_layered_child());
    assert_eq!(z_order_plan(raised), Ok(Some((11, 12))));
    assert_eq!(raised_desktop_parent(10, true, None, Some(12)), None);
    assert_eq!(raised_desktop_parent(10, false, Some(11), Some(12)), None);
    assert_eq!(rejected_child_fallback(raised).map(|p| p.hwnd), Some(12));
    let plain = DesktopParent::workerw(5);
    assert!(!plain.requires_layered_child());
    assert_eq!(z_order_plan(plain), Ok(None));
    assert_eq!(rejected_child_fallback(plain), None);
    let broken = DesktopParent { hwnd: 10, kind: DesktopParentKind::RaisedDesktop, shell_defview: Some(11), workerw: None };
    assert_eq!(
        z_order_plan(broken),
        Err("Raised desktop parent is missing WorkerW for wallpaper z-order".to_string())
    );
}

#[test]
fn pause_requests_combine_manual_and_automatic_sources() {
    let running = PauseState::idle().wallpaper_started();
    let step = running.request(PauseSource::Automatic, true);
    assert!(step.command_needed);
    let auto_paused = PauseState::settle(step, true);
    assert!(auto_paused.paused && auto_paused.auto_paused && !auto_paused.manual_paused);

    let step = auto_paused.request(PauseSource::Manual, true);
    assert!(!step.command_needed);
    let both = PauseState::settle(step, true);
    let step = both.request(PauseSource::Automatic, false);
    assert!(!step.command_needed);
    let manual_only = PauseState::settle(step, true);
    assert!(manual_only.paused && manual_only.manual_paused);

    let step = manual_only.request(PauseSource::Manual, false);
    assert!(step.command_needed);
    let refused = PauseState::settle(step, false);
    assert!(refused.paused && refused.manual_paused);

    assert!(!auto_paused.toggle_target());
    assert!(running.toggle_target());
    let status = runtime_status(refused);
    assert!(status.active && status.paused && !status.auto_paused);
    assert_eq!(refused.stopped(), PauseState::idle());
    assert_eq!(refused.target_stopped(true).active, true);
}

#[test]
fn targets_and_slots_are_resolved() {
    assert_eq!(slots_for_target(&WallpaperTarget::All), None);
    assert_eq!(
        slots_for_target(&WallpaperTarget::Monitor("DISPLAY2".to_string())),
        Some(vec![ALL_MONITORS_SLOT.to_string(), "DISPLAY2".to_string()])
    );
    let active = vec!["DISPLAY1".to_string(), "DISPLAY2".to_string()];
    assert_eq!(slots_to_adjust(&active, None), Ok(active.clone()));
    assert_eq!(slots_to_adjust(&active, Some("DISPLAY2")), Ok(vec!["DISPLAY2".to_string()]));
    assert_eq!(
        slots_to_adjust(&active, Some("DISPLAY3")),
        Err("No active player for slot 'DISPLAY3'".to_string())
    );
    assert_eq!(parse_fit_mode("stretch"), Ok(FitMode::Stretch));
    assert!(parse_fit_mode("zoom").is_err());
}
