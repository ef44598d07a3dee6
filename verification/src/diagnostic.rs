//! Troubleshooting report: what is read from the system's command output and
//! from the desktop's top-level windows.
use crate::text;
use vstd::prelude::*;

verus! {

/// One desktop-related top-level window.
#[derive(Debug, Clone)]
pub struct WindowInfo {
    pub hwnd: String,
    pub class_name: String,
    pub title: String,
    pub visible: bool,
}

/// Everything the troubleshooting report holds.
#[derive(Debug, Clone)]
pub struct DiagnosticInfo {
    pub os_version: String,
    pub build_number: String,
    pub desktop_windows: Vec<WindowInfo>,
    pub running_wallpaper_apps: Vec<String>,
    pub antivirus_info: Option<String>,
    pub workerw_count: usize,
    pub progman_found: bool,
}

/// The text shown when a system value could not be read.
pub open spec fn unknown() -> Seq<char> {
    "Unknown"@
}

/// The trimmed output of the version command, or `Unknown` when it could not run.
pub fn os_version_from(output: Option<&str>) -> (r: String)
    ensures
        r@ == (match output {
            Some(o) => text::trim_seq(o@),
            None => unknown(),
        }),
{
    proof {
        reveal_strlit("Unknown");
    }
    match output {
        Some(o) => {
            let t = text::trim_str(o);
            text::string_from(t.as_slice())
        },
        None => text::owned("Unknown"),
    }
}

/// The first line that starts with `p`.
pub open spec fn first_with_prefix(lines: Seq<Seq<char>>, p: Seq<char>) -> Option<Seq<char>>
    decreases lines.len(),
{
    if lines.len() == 0 {
        None
    } else if text::has_prefix(lines[0], p) {
        Some(lines[0])
    } else {
        first_with_prefix(lines.drop_first(), p)
    }
}

/// The build number in the output of `wmic os get BuildNumber /value`: on the
/// first line that starts with `BuildNumber=`, the text between the first `=`
/// and the next one, trimmed; `Unknown` when there is no such line.
///
/// Lines are cut at `\n`; a `\r` before it ends up at the end of the value,
/// where trimming removes it, so this gives what `str::lines` gives.
pub open spec fn build_number_of(output: Seq<char>) -> Seq<char> {
    match first_with_prefix(text::split_seq(output, '\n'), "BuildNumber="@) {
        Some(line) => {
            let parts = text::split_seq(line, '=');
            if parts.len() > 1 {
                text::trim_seq(parts[1])
            } else {
                unknown()
            }
        },
        None => unknown(),
    }
}

/// Reads the build number from the command's output, `Unknown` when the
/// command could not run.
pub fn build_number_from(output: Option<&str>) -> (r: String)
    ensures
        r@ == (match output {
            Some(o) => build_number_of(o@),
            None => unknown(),
        }),
{
    proof {
        reveal_strlit("Unknown");
        reveal_strlit("BuildNumber=");
    }
    let o = match output {
        Some(o) => o,
        None => {
            return text::owned("Unknown");
        },
    };
    let chars = text::chars_of(o);
    let lines = text::split_char(chars.as_slice(), '\n');
    let ghost all = text::views(lines@);
    let mut i: usize = 0;
    assert(all.skip(0) == all);
    while i < lines.len() && !text::starts_with_str(lines[i].as_slice(), "BuildNumber=")
        invariant
            all == text::views(lines@),
            all == text::split_seq(o@, '\n'),
            i <= lines@.len(),
            first_with_prefix(all, "BuildNumber="@) == first_with_prefix(all.skip(i as int), "BuildNumber="@),
        decreases lines@.len() - i,
    {
        assert(all.skip(i as int)[0] == lines@[i as int]@);
        assert(all.skip(i as int).drop_first() == all.skip(i + 1));
        i = i + 1;
    }
    if i == lines.len() {
        assert(all.skip(i as int).len() == 0);
        return text::owned("Unknown");
    }
    assert(all.skip(i as int)[0] == lines@[i as int]@);
    let parts = text::split_char(lines[i].as_slice(), '=');
    if parts.len() > 1 {
        assert(text::views(parts@)[1] == parts@[1]@);
        let t = text::trim(parts[1].as_slice());
        text::string_from(t.as_slice())
    } else {
        text::owned("Unknown")
    }
}

/// Known live-wallpaper programs that compete for the desktop, by process
/// name, with the lowercase form that is looked for.
pub open spec fn known_wallpaper_apps() -> Seq<(Seq<char>, Seq<char>)> {
    seq![
        ("wallpaper32.exe"@, "wallpaper32.exe"@),
        ("wallpaper64.exe"@, "wallpaper64.exe"@),
        ("lively.exe"@, "lively.exe"@),
        ("LivelyWallpaper.exe"@, "livelywallpaper.exe"@),
        ("deskscapes.exe"@, "deskscapes.exe"@),
        ("RainWallpaper.exe"@, "rainwallpaper.exe"@),
    ]
}

/// The names, in list order, of the known programs that `lowered` mentions.
pub open spec fn apps_mentioned(lowered: Seq<char>, apps: Seq<(Seq<char>, Seq<char>)>) -> Seq<Seq<char>>
    decreases apps.len(),
{
    if apps.len() == 0 {
        seq![]
    } else {
        let rest = apps_mentioned(lowered, apps.drop_first());
        if text::contains_seq(lowered, apps[0].1) {
            seq![apps[0].0] + rest
        } else {
            rest
        }
    }
}

/// The known wallpaper programs named in the lowercased process list.
pub fn wallpaper_apps_in(lowered_tasklist: &str) -> (r: Vec<String>)
    ensures
        text::strings_view(r@) == apps_mentioned(lowered_tasklist@, known_wallpaper_apps()),
{
    proof {
        reveal_strlit("wallpaper32.exe");
        reveal_strlit("wallpaper64.exe");
        reveal_strlit("lively.exe");
        reveal_strlit("LivelyWallpaper.exe");
        reveal_strlit("livelywallpaper.exe");
        reveal_strlit("deskscapes.exe");
        reveal_strlit("RainWallpaper.exe");
        reveal_strlit("rainwallpaper.exe");
    }
    let names: [&str; 6] = [
        "wallpaper32.exe",
        "wallpaper64.exe",
        "lively.exe",
        "LivelyWallpaper.exe",
        "deskscapes.exe",
        "RainWallpaper.exe",
    ];
    let needles: [&str; 6] = [
        "wallpaper32.exe",
        "wallpaper64.exe",
        "lively.exe",
        "livelywallpaper.exe",
        "deskscapes.exe",
        "rainwallpaper.exe",
    ];
    let ghost apps = known_wallpaper_apps();
    let hay = text::chars_of(lowered_tasklist);
    let mut found: Vec<String> = Vec::new();
    let mut i: usize = 0;
    assert(apps.skip(0) == apps);
    while i < 6
        invariant
            apps == known_wallpaper_apps(),
            i <= 6,
            hay@ == lowered_tasklist@,
            forall|k: int| 0 <= k < 6 ==> (#[trigger] names@[k])@ == apps[k].0 && needles@[k]@ == apps[k].1,
            apps_mentioned(hay@, apps) == text::strings_view(found@) + apps_mentioned(hay@, apps.skip(i as int)),
        decreases 6 - i,
    {
        assert(names@[i as int]@ == apps[i as int].0);
        assert(apps.skip(i as int)[0] == apps[i as int]);
        assert(apps.skip(i as int).drop_first() == apps.skip(i + 1));
        if text::contains_str(hay.as_slice(), needles[i]) {
            let ghost before = text::strings_view(found@);
            found.push(text::owned(names[i]));
            assert(text::strings_view(found@) == before.push(apps[i as int].0));
        }
        i = i + 1;
    }
    assert(apps.skip(6).len() == 0);
    found
}

/// The known wallpaper programs named, in any case, in the output of the
/// process list.
pub fn detect_wallpaper_apps_in(tasklist_output: &str) -> (r: Vec<String>)
    ensures
        text::strings_view(r@) == apps_mentioned(
            text::unicode_lowercase(tasklist_output@),
            known_wallpaper_apps(),
        ),
{
    let lowered = text::to_lowercase(tasklist_output);
    wallpaper_apps_in(lowered.as_str())
}

/// The installed antivirus product named by the Security Center query, unless
/// it is the built-in one or the query gave nothing.
pub open spec fn antivirus_of(output: Seq<char>) -> Option<Seq<char>> {
    let t = text::trim_seq(output);
    if t.len() > 0 && t != "Windows Defender"@ {
        Some(t)
    } else {
        None
    }
}

/// The third-party antivirus read from the query's output; `None` when the
/// query could not run.
pub fn antivirus_from(output: Option<&str>) -> (r: Option<String>)
    ensures
        match output {
            Some(o) => match r {
                Some(s) => antivirus_of(o@) == Some(s@),
                None => antivirus_of(o@) is None,
            },
            None => r is None,
        },
{
    match output {
        Some(o) => {
            let t = text::trim_str(o);
            if t.len() > 0 && !text::chars_eq_str(t.as_slice(), "Windows Defender") {
                Some(text::string_from(t.as_slice()))
            } else {
                None
            }
        },
        None => None,
    }
}

/// Whether a window class belongs to the desktop shell's windows.
pub open spec fn desktop_related_class(class_name: Seq<char>) -> bool {
    ||| text::contains_seq(class_name, "Progman"@)
    ||| text::contains_seq(class_name, "WorkerW"@)
    ||| text::contains_seq(class_name, "SHELLDLL_DefView"@)
}

/// Whether a top-level window is kept in the report.
pub fn is_desktop_related_class(class_name: &str) -> (r: bool)
    ensures
        r == desktop_related_class(class_name@),
{
    let c = text::chars_of(class_name);
    text::contains_str(c.as_slice(), "Progman") || text::contains_str(c.as_slice(), "WorkerW")
        || text::contains_str(c.as_slice(), "SHELLDLL_DefView")
}

/// The number of windows of class exactly `WorkerW`.
pub open spec fn workerw_count_of(windows: Seq<WindowInfo>) -> nat
    decreases windows.len(),
{
    if windows.len() == 0 {
        0
    } else {
        workerw_count_of(windows.drop_last()) + if windows.last().class_name@ == "WorkerW"@ {
            1nat
        } else {
            0nat
        }
    }
}

/// Whether some window has class exactly `Progman`.
pub open spec fn progman_present(windows: Seq<WindowInfo>) -> bool {
    exists|i: int| 0 <= i < windows.len() && (#[trigger] windows[i]).class_name@ == "Progman"@
}

/// Assembles the report, counting the `WorkerW` windows and looking for `Progman`.
pub fn diagnostic_info(
    os_version: String,
    build_number: String,
    desktop_windows: Vec<WindowInfo>,
    running_wallpaper_apps: Vec<String>,
    antivirus_info: Option<String>,
) -> (r: DiagnosticInfo)
    ensures
        r.os_version == os_version,
        r.build_number == build_number,
        r.desktop_windows@ == desktop_windows@,
        r.running_wallpaper_apps@ == running_wallpaper_apps@,
        r.antivirus_info == antivirus_info,
        r.workerw_count == workerw_count_of(desktop_windows@),
        r.progman_found == progman_present(desktop_windows@),
{
    let mut count: usize = 0;
    let mut progman = false;
    let mut i: usize = 0;
    while i < desktop_windows.len()
        invariant
            i <= desktop_windows@.len(),
            count as nat == workerw_count_of(desktop_windows@.take(i as int)),
            count <= i,
            progman == progman_present(desktop_windows@.take(i as int)),
        decreases desktop_windows@.len() - i,
    {
        let ghost pre = desktop_windows@.take(i as int);
        assert(desktop_windows@.take(i + 1).drop_last() == pre);
        let c = text::chars_of(desktop_windows[i].class_name.as_str());
        if text::chars_eq_str(c.as_slice(), "WorkerW") {
            count = count + 1;
        }
        if text::chars_eq_str(c.as_slice(), "Progman") {
            progman = true;
            assert(desktop_windows@.take(i + 1)[i as int] == desktop_windows@[i as int]);
        }
        proof {
            let next = desktop_windows@.take(i + 1);
            if progman_present(next) && !progman_present(pre) {
                let j = choose|j: int| 0 <= j < next.len() && (#[trigger] next[j]).class_name@ == "Progman"@;
                assert(j == i);
            }
            if progman_present(pre) {
                let j = choose|j: int| 0 <= j < pre.len() && (#[trigger] pre[j]).class_name@ == "Progman"@;
                assert(next[j] == pre[j]);
            }
        }
        i = i + 1;
    }
    assert(desktop_windows@.take(desktop_windows@.len() as int) == desktop_windows@);
    DiagnosticInfo {
        os_version,
        build_number,
        desktop_windows,
        running_wallpaper_apps,
        antivirus_info,
        workerw_count: count,
        progman_found: progman,
    }
}

} // verus!
