//! The wallpaper runtime's pause bookkeeping, targets and fit modes.
use crate::display::ALL_MONITORS_SLOT;
use crate::text;
use vstd::prelude::*;

verus! {

/// Where a wallpaper is applied: every display, or one monitor by id.
#[derive(Debug, Clone)]
pub enum WallpaperTarget {
    All,
    Monitor(String),
}

/// How a video is scaled to its display.
#[derive(Debug, Clone, Copy, PartialEq, Eq, Structural)]
pub enum FitMode {
    /// Keep the aspect ratio and fit inside the display.
    Fit,
    /// Keep the aspect ratio and fill the display, cropping.
    Fill,
    /// Fill the display, ignoring the aspect ratio.
    Stretch,
}

impl Default for FitMode {
    fn default() -> (r: FitMode)
        ensures
            r == FitMode::Fit,
    {
        FitMode::Fit
    }
}

/// The fit mode a setting names; an error naming the valid ones otherwise.
pub fn parse_fit_mode(mode: &str) -> (r: Result<FitMode, String>)
    ensures
        mode@ == "fit"@ ==> r == Ok::<FitMode, String>(FitMode::Fit),
        mode@ == "fill"@ ==> r == Ok::<FitMode, String>(FitMode::Fill),
        mode@ == "stretch"@ ==> r == Ok::<FitMode, String>(FitMode::Stretch),
        !(mode@ == "fit"@ || mode@ == "fill"@ || mode@ == "stretch"@) ==> (r matches Err(e) && e@
            == "Invalid fit mode: "@ + mode@ + ". Valid modes: fit, fill, stretch"@),
{
    let m = text::chars_of(mode);
    proof {
        reveal_strlit("fit");
        reveal_strlit("fill");
        reveal_strlit("stretch");
        assert("fit"@.len() == 3 && "fill"@.len() == 4 && "stretch"@.len() == 7);
    }
    if text::chars_eq_str(m.as_slice(), "fit") {
        Ok(FitMode::Fit)
    } else if text::chars_eq_str(m.as_slice(), "fill") {
        Ok(FitMode::Fill)
    } else if text::chars_eq_str(m.as_slice(), "stretch") {
        Ok(FitMode::Stretch)
    } else {
        let mut msg = text::chars_of("Invalid fit mode: ");
        text::push_str(&mut msg, mode);
        text::push_str(&mut msg, ". Valid modes: fit, fill, stretch");
        Err(text::string_from(msg.as_slice()))
    }
}

/// The player slots that applying or stopping a target replaces: every slot for all
/// displays; for one monitor, the all-displays slot and the monitor's own.
pub fn slots_for_target(target: &WallpaperTarget) -> (r: Option<Vec<String>>)
    ensures
        match target {
            WallpaperTarget::All => r is None,
            WallpaperTarget::Monitor(id) => r matches Some(v) && v@.len() == 2 && v@[0]@
                == ALL_MONITORS_SLOT@ && v@[1]@ == id@,
        },
{
    match target {
        WallpaperTarget::All => None,
        WallpaperTarget::Monitor(id) => {
            let mut v: Vec<String> = Vec::new();
            v.push(text::owned(ALL_MONITORS_SLOT));
            v.push(text::owned(id.as_str()));
            Some(v)
        },
    }
}

/// The players a speed or fit-mode change reaches: the named slot, which must
/// have a player, or every active slot.
pub open spec fn adjusted_slots(active: Seq<Seq<char>>, slot: Option<Seq<char>>) -> Result<Seq<Seq<char>>, Seq<char>> {
    match slot {
        Some(s) => if active.contains(s) {
            Ok(seq![s])
        } else {
            Err("No active player for slot '"@ + s + "'"@)
        },
        None => Ok(active),
    }
}

/// Chooses the players that a speed or fit-mode change applies to.
pub fn slots_to_adjust(active: &Vec<String>, slot: Option<&str>) -> (r: Result<Vec<String>, String>)
    ensures
        match r {
            Ok(v) => adjusted_slots(text::strings_view(active@), match slot {
                Some(s) => Some(s@),
                None => None,
            }) == Ok::<Seq<Seq<char>>, Seq<char>>(text::strings_view(v@)),
            Err(e) => adjusted_slots(text::strings_view(active@), match slot {
                Some(s) => Some(s@),
                None => None,
            }) == Err::<Seq<Seq<char>>, Seq<char>>(e@),
        },
{
    let ghost av = text::strings_view(active@);
    match slot {
        None => {
            let mut out: Vec<String> = Vec::new();
            let mut i: usize = 0;
            while i < active.len()
                invariant
                    i <= active@.len(),
                    av == text::strings_view(active@),
                    text::strings_view(out@) == av.take(i as int),
                decreases active@.len() - i,
            {
                let ghost before = text::strings_view(out@);
                out.push(text::owned(active[i].as_str()));
                assert(text::strings_view(out@) == before.push(av[i as int]));
                assert(av.take(i + 1) == av.take(i as int).push(av[i as int]));
                i = i + 1;
            }
            assert(av.take(active@.len() as int) == av);
            Ok(out)
        },
        Some(s) => {
            let target = text::chars_of(s);
            let mut i: usize = 0;
            while i < active.len()
                invariant
                    i <= active@.len(),
                    av == text::strings_view(active@),
                    target@ == s@,
                    slot == Some(s),
                    forall|k: int| 0 <= k < i ==> av[k] != s@,
                decreases active@.len() - i,
            {
                let c = text::chars_of(active[i].as_str());
                if text::chars_eq(c.as_slice(), target.as_slice()) {
                    assert(av[i as int] == s@);
                    assert(av.contains(s@));
                    let mut out: Vec<String> = Vec::new();
                    out.push(text::owned(s));
                    assert(text::strings_view(out@) == seq![s@]);
                    return Ok(out);
                }
                i = i + 1;
            }
            assert(!av.contains(s@));
            let mut msg = text::chars_of("No active player for slot '");
            text::push_str(&mut msg, s);
            text::push_str(&mut msg, "'");
            Err(text::string_from(msg.as_slice()))
        },
    }
}

/// Who asks for a pause.
#[derive(Debug, Clone, Copy, PartialEq, Eq, Structural)]
pub enum PauseSource {
    Manual,
    Automatic,
}

/// The runtime's view of playback: whether a wallpaper runs, and the pause asked for
/// by the user and by the automatic rules. `paused` is the effective state the players
/// were last told.
#[derive(Debug, Clone, Copy, PartialEq, Eq, Structural)]
pub struct PauseState {
    pub active: bool,
    pub paused: bool,
    pub manual_paused: bool,
    pub auto_paused: bool,
}

/// A pause request worked out: the state to keep if the players accept it, the state
/// to restore if they refuse, and whether they have to be told at all.
#[derive(Debug, Clone, Copy, PartialEq, Eq, Structural)]
pub struct PauseStep {
    pub next: PauseState,
    pub previous: PauseState,
    pub command_needed: bool,
}

impl PauseState {
    /// The effective pause is the user's or the rules'.
    pub open spec fn consistent(self) -> bool {
        self.paused == (self.manual_paused || self.auto_paused)
    }

    /// Nothing running, nothing paused.
    pub fn idle() -> (r: PauseState)
        ensures
            r == (PauseState { active: false, paused: false, manual_paused: false, auto_paused: false }),
            r.consistent(),
    {
        PauseState { active: false, paused: false, manual_paused: false, auto_paused: false }
    }

    /// A wallpaper was applied: it runs, unpaused.
    pub fn wallpaper_started(self) -> (r: PauseState)
        ensures
            r == (PauseState { active: true, paused: false, manual_paused: false, auto_paused: false }),
            r.consistent(),
    {
        PauseState { active: true, paused: false, manual_paused: false, auto_paused: false }
    }

    /// All wallpapers were stopped.
    pub fn stopped(self) -> (r: PauseState)
        ensures
            r == PauseState::idle_spec(),
            r.consistent(),
    {
        PauseState { active: false, paused: false, manual_paused: false, auto_paused: false }
    }

    pub open spec fn idle_spec() -> PauseState {
        PauseState { active: false, paused: false, manual_paused: false, auto_paused: false }
    }

    /// One target was stopped; `still_playing` tells whether players remain. Without
    /// players every pause is cleared.
    pub fn target_stopped(self, still_playing: bool) -> (r: PauseState)
        ensures
            still_playing ==> r == (PauseState { active: true, ..self }),
            !still_playing ==> r == PauseState::idle_spec(),
            self.consistent() ==> r.consistent(),
    {
        if still_playing {
            PauseState { active: true, ..self }
        } else {
            PauseState { active: false, paused: false, manual_paused: false, auto_paused: false }
        }
    }

    /// Records that `source` wants playback `paused`. The players are told only when
    /// the effective pause changes; when they need not be, the new state stands at once.
    pub fn request(self, source: PauseSource, paused: bool) -> (r: PauseStep)
        ensures
            r.previous == self,
            r.next == requested(self, source, paused),
            r.command_needed == ((self.manual_paused || self.auto_paused) != r.next.paused),
            r.next.consistent(),
    {
        let manual = match source {
            PauseSource::Manual => paused,
            PauseSource::Automatic => self.manual_paused,
        };
        let automatic = match source {
            PauseSource::Automatic => paused,
            PauseSource::Manual => self.auto_paused,
        };
        let effective = manual || automatic;
        PauseStep {
            next: PauseState { active: self.active, paused: effective, manual_paused: manual, auto_paused: automatic },
            previous: self,
            command_needed: (self.manual_paused || self.auto_paused) != effective,
        }
    }

    /// The state after the players answered a pause command: the new state when they
    /// accepted it, the old one, with its effective pause recomputed, when they refused.
    pub fn settle(step: PauseStep, accepted: bool) -> (r: PauseState)
        ensures
            accepted ==> r == step.next,
            !accepted ==> r == (PauseState {
                paused: step.previous.manual_paused || step.previous.auto_paused,
                ..step.previous
            }),
            step.next.consistent() ==> r.consistent(),
    {
        if accepted {
            step.next
        } else {
            PauseState {
                active: step.previous.active,
                paused: step.previous.manual_paused || step.previous.auto_paused,
                manual_paused: step.previous.manual_paused,
                auto_paused: step.previous.auto_paused,
            }
        }
    }

    /// The manual pause that a toggle asks for: a wallpaper paused by the rules alone
    /// is resumed; otherwise the user's pause flips.
    pub fn toggle_target(self) -> (r: bool)
        ensures
            r == (if self.auto_paused && !self.manual_paused { false } else { !self.manual_paused }),
    {
        if self.auto_paused && !self.manual_paused {
            false
        } else {
            !self.manual_paused
        }
    }
}

/// The state a pause request asks for.
pub open spec fn requested(s: PauseState, source: PauseSource, paused: bool) -> PauseState {
    let manual = if source == PauseSource::Manual { paused } else { s.manual_paused };
    let automatic = if source == PauseSource::Automatic { paused } else { s.auto_paused };
    PauseState { active: s.active, paused: manual || automatic, manual_paused: manual, auto_paused: automatic }
}

/// The state after the players answered: the request's when accepted, the old
/// one (its effective pause recomputed) when refused.
pub open spec fn answered(s: PauseState, source: PauseSource, paused: bool, accepted: bool) -> PauseState {
    if accepted {
        requested(s, source, paused)
    } else {
        PauseState { paused: s.manual_paused || s.auto_paused, ..s }
    }
}

/// Whatever is asked and however the players answer, the effective pause ends up equal
/// to the user's pause or the rules' pause; a refused request changes neither.
pub proof fn lemma_pause_requests_stay_consistent(
    s: PauseState,
    source: PauseSource,
    paused: bool,
    accepted: bool,
)
    ensures
        answered(s, source, paused, accepted).consistent(),
        !accepted ==> answered(s, source, paused, accepted).manual_paused == s.manual_paused
            && answered(s, source, paused, accepted).auto_paused == s.auto_paused,
{
}

/// The automatic rules never lift a pause that the user asked for, and the user's
/// resume does not lift a pause that the rules hold.
pub proof fn lemma_sources_are_independent(s: PauseState, paused: bool)
    ensures
        s.manual_paused ==> requested(s, PauseSource::Automatic, paused).paused,
        s.auto_paused ==> requested(s, PauseSource::Manual, paused).paused,
{
}

/// What the interface shows of the runtime.
#[derive(Debug, Clone, Copy, PartialEq, Eq, Structural)]
pub struct RuntimeStatus {
    pub active: bool,
    pub paused: bool,
    pub auto_paused: bool,
}

pub fn runtime_status(state: PauseState) -> (r: RuntimeStatus)
    ensures
        r == (RuntimeStatus { active: state.active, paused: state.paused, auto_paused: state.auto_paused }),
{
    RuntimeStatus { active: state.active, paused: state.paused, auto_paused: state.auto_paused }
}

} // verus!
