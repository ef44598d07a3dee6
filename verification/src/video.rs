//! Settings handed to the video player and how its start-up is judged.
use crate::runtime::FitMode;
use crate::text;
use vstd::prelude::*;

verus! {

/// The player's name for a fit mode.
pub open spec fn fit_mode_name_of(mode: FitMode) -> Seq<char> {
    match mode {
        FitMode::Fit => "fit"@,
        FitMode::Fill => "fill"@,
        FitMode::Stretch => "stretch"@,
    }
}

/// The name under which a fit mode is applied to the player.
pub fn fit_mode_name(mode: FitMode) -> (r: &'static str)
    ensures
        r@ == fit_mode_name_of(mode),
{
    match mode {
        FitMode::Fit => "fit",
        FitMode::Fill => "fill",
        FitMode::Stretch => "stretch",
    }
}

/// The player properties of a fit mode, `keepaspect` then
/// `video-aspect-override`: fit keeps the aspect ratio, fill crops to the
/// screen, stretch ignores the aspect ratio.
pub open spec fn aspect_properties(mode: Seq<char>) -> Option<(Seq<char>, Seq<char>)> {
    if mode == "fit"@ {
        Some(("yes"@, "0"@))
    } else if mode == "fill"@ {
        Some(("no"@, "-1"@))
    } else if mode == "stretch"@ {
        Some(("no"@, "0"@))
    } else {
        None
    }
}

/// The properties for a fit mode set on a running player; an unknown mode is refused.
pub fn fit_mode_properties(mode: &str) -> (r: Result<(&'static str, &'static str), String>)
    ensures
        match r {
            Ok((keep, over)) => aspect_properties(mode@) == Some((keep@, over@)),
            Err(e) => aspect_properties(mode@) is None && e@ == "Invalid fit mode: "@ + mode@
                + ". Use 'fit', 'fill', or 'stretch'"@,
        },
{
    proof {
        reveal_strlit("fit");
        reveal_strlit("fill");
        reveal_strlit("stretch");
    }
    let m = text::chars_of(mode);
    if text::chars_eq_str(m.as_slice(), "fit") {
        Ok(("yes", "0"))
    } else if text::chars_eq_str(m.as_slice(), "fill") {
        Ok(("no", "-1"))
    } else if text::chars_eq_str(m.as_slice(), "stretch") {
        Ok(("no", "0"))
    } else {
        let mut v = text::chars_of("Invalid fit mode: ");
        text::push_str(&mut v, mode);
        text::push_str(&mut v, ". Use 'fit', 'fill', or 'stretch'");
        Err(text::string_from(v.as_slice()))
    }
}

/// The properties a new player starts with: those of its fit mode, or those of
/// `fit` when the mode is unknown.
pub fn initial_fit_mode_properties(mode: &str) -> (r: (&'static str, &'static str))
    ensures
        aspect_properties(mode@) matches Some(p) ==> (r.0@, r.1@) == p,
        aspect_properties(mode@) is None ==> r.0@ == "yes"@ && r.1@ == "0"@,
{
    match fit_mode_properties(mode) {
        Ok(p) => p,
        Err(_) => ("yes", "0"),
    }
}

/// A frame-rate cap is kept only between 1 and 240 frames per second.
pub fn validated_fps_cap(fps: Option<u32>) -> (r: Option<u32>)
    ensures
        r == (match fps {
            Some(f) => if 1 <= f <= 240 {
                Some(f)
            } else {
                None
            },
            None => None,
        }),
{
    match fps {
        Some(f) => if 1 <= f && f <= 240 {
            Some(f)
        } else {
            None
        },
        None => None,
    }
}

/// The video filter that caps the frame rate, `lavfi=[fps=N]`, or the empty
/// filter chain when there is no cap.
pub open spec fn fps_filter_of(cap: Option<u32>) -> Seq<char> {
    match cap {
        Some(f) => "lavfi=[fps="@ + text::decimal(f as nat) + "]"@,
        None => ""@,
    }
}

/// The `vf` property for a (validated) frame-rate cap.
pub fn fps_filter(cap: Option<u32>) -> (r: String)
    ensures
        r@ == fps_filter_of(cap),
{
    match cap {
        Some(f) => {
            let mut v = text::chars_of("lavfi=[fps=");
            let digits = text::u64_text(f as u64);
            text::push_all(&mut v, digits.as_slice());
            text::push_str(&mut v, "]");
            text::string_from(v.as_slice())
        },
        None => text::owned(""),
    }
}

/// The name of one of the player's error codes.
pub open spec fn mpv_error_name_of(code: i32) -> Seq<char> {
    if code == -13 {
        "LoadingFailed"@
    } else if code == -15 {
        "VoInitFailed"@
    } else if code == -14 {
        "AoInitFailed"@
    } else if code == -16 {
        "NothingToPlay"@
    } else if code == -17 {
        "UnknownFormat"@
    } else if code == -18 {
        "Unsupported"@
    } else if code == -4 {
        "InvalidParameter"@
    } else if code == -12 {
        "CommandFailed"@
    } else if code == -7 {
        "OptionError"@
    } else if code == -6 {
        "OptionFormat"@
    } else if code == -5 {
        "OptionNotFound"@
    } else if code == -11 {
        "PropertyError"@
    } else if code == -9 {
        "PropertyFormat"@
    } else if code == -8 {
        "PropertyNotFound"@
    } else if code == -10 {
        "PropertyUnavailable"@
    } else if code == -3 {
        "Uninitialized"@
    } else if code == -2 {
        "NoMem"@
    } else if code == -19 {
        "NotImplemented"@
    } else if code == -20 {
        "Generic"@
    } else {
        "UnknownMpvError"@
    }
}

/// Names a raw error code of the player (libmpv's `mpv_error` values).
pub fn mpv_error_name(code: i32) -> (r: &'static str)
    ensures
        r@ == mpv_error_name_of(code),
{
    if code == -13 {
        "LoadingFailed"
    } else if code == -15 {
        "VoInitFailed"
    } else if code == -14 {
        "AoInitFailed"
    } else if code == -16 {
        "NothingToPlay"
    } else if code == -17 {
        "UnknownFormat"
    } else if code == -18 {
        "Unsupported"
    } else if code == -4 {
        "InvalidParameter"
    } else if code == -12 {
        "CommandFailed"
    } else if code == -7 {
        "OptionError"
    } else if code == -6 {
        "OptionFormat"
    } else if code == -5 {
        "OptionNotFound"
    } else if code == -11 {
        "PropertyError"
    } else if code == -9 {
        "PropertyFormat"
    } else if code == -8 {
        "PropertyNotFound"
    } else if code == -10 {
        "PropertyUnavailable"
    } else if code == -3 {
        "Uninitialized"
    } else if code == -2 {
        "NoMem"
    } else if code == -19 {
        "NotImplemented"
    } else if code == -20 {
        "Generic"
    } else {
        "UnknownMpvError"
    }
}

/// A raw error code described as `Name (code)`.
pub fn describe_mpv_error_code(code: i32) -> (r: String)
    ensures
        r@ == mpv_error_name_of(code) + " ("@ + text::int_text(code as int) + ")"@,
{
    let mut v = text::chars_of(mpv_error_name(code));
    text::push_str(&mut v, " (");
    let digits = text::i64_text(code as i64);
    text::push_all(&mut v, digits.as_slice());
    text::push_str(&mut v, ")");
    text::string_from(v.as_slice())
}

/// The player events that matter while waiting for the first frame.
#[derive(Clone, Copy, Debug, PartialEq, Eq, Structural)]
pub enum PlayerEvent {
    FileLoaded,
    VideoReconfig,
    PlaybackRestart,
    EndFile,
    Other,
}

/// What an event means for a player that is starting.
#[derive(Clone, Copy, Debug, PartialEq, Eq, Structural)]
pub enum ReadinessStep {
    /// Video output is ready.
    Ready,
    /// Playback ended before any video was shown.
    Ended,
    /// Keep waiting.
    Waiting,
}

/// Video output is ready once the player reconfigures its video or restarts
/// playback; the file ending first is a failure.
pub fn readiness_step(event: PlayerEvent) -> (r: ReadinessStep)
    ensures
        r == (match event {
            PlayerEvent::VideoReconfig | PlayerEvent::PlaybackRestart => ReadinessStep::Ready,
            PlayerEvent::EndFile => ReadinessStep::Ended,
            _ => ReadinessStep::Waiting,
        }),
{
    match event {
        PlayerEvent::VideoReconfig | PlayerEvent::PlaybackRestart => ReadinessStep::Ready,
        PlayerEvent::EndFile => ReadinessStep::Ended,
        _ => ReadinessStep::Waiting,
    }
}

/// The events seen while waiting, joined by `, `, or `<none>`.
pub open spec fn events_text(events: Seq<Seq<char>>) -> Seq<char>
    decreases events.len(),
{
    if events.len() == 0 {
        "<none>"@
    } else if events.len() == 1 {
        events[0]
    } else {
        events_text(events.drop_last()) + ", "@ + events.last()
    }
}

/// The message when the player did not get ready in time.
pub open spec fn readiness_timeout_message_of(video_path: Seq<char>, loaded_file: bool, events: Seq<Seq<char>>) -> Seq<char> {
    if loaded_file {
        "mpv loaded '"@ + video_path + "', but did not report video output readiness within 5s; events: "@
            + events_text(events)
    } else {
        "mpv did not report file load or video output readiness for '"@ + video_path
            + "' within 5s; events: "@ + events_text(events)
    }
}

fn join_events(events: &Vec<String>) -> (r: Vec<char>)
    ensures
        r@ == events_text(text::strings_view(events@)),
{
    if events.len() == 0 {
        return text::chars_of("<none>");
    }
    let mut out = text::chars_of(events[0].as_str());
    let mut i: usize = 1;
    proof {
        let s = text::strings_view(events@);
        assert(s.take(1).len() == 1);
        assert(s.take(1)[0] == s[0]);
    }
    while i < events.len()
        invariant
            1 <= i <= events@.len(),
            out@ == events_text(text::strings_view(events@).take(i as int)),
        decreases events@.len() - i,
    {
        let ghost s = text::strings_view(events@);
        assert(s.take(i + 1).drop_last() == s.take(i as int));
        assert(s.take(i + 1).last() == events@[i as int]@);
        text::push_str(&mut out, ", ");
        text::push_str(&mut out, events[i].as_str());
        i = i + 1;
    }
    assert(text::strings_view(events@).take(events@.len() as int) == text::strings_view(events@));
    out
}

/// Builds the message for a player that did not get ready within the five
/// seconds it is given.
pub fn readiness_timeout_message(video_path: &str, loaded_file: bool, events: &Vec<String>) -> (r: String)
    ensures
        r@ == readiness_timeout_message_of(video_path@, loaded_file, text::strings_view(events@)),
{
    let joined = join_events(events);
    let mut v = if loaded_file {
        text::chars_of("mpv loaded '")
    } else {
        text::chars_of("mpv did not report file load or video output readiness for '")
    };
    text::push_str(&mut v, video_path);
    if loaded_file {
        text::push_str(&mut v, "', but did not report video output readiness within 5s; events: ");
    } else {
        text::push_str(&mut v, "' within 5s; events: ");
    }
    text::push_all(&mut v, joined.as_slice());
    text::string_from(v.as_slice())
}

} // verus!
