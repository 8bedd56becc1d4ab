//! The decisions the window's event loop takes on each event: pause, fast
//! mode, mute and audio, saving, leaving, and whether a frame is run.

use vstd::prelude::*;

verus! {

/// How long after the window regains focus the focus guard fires, in
/// nanoseconds.
pub const FOCUS_GUARD_DELAY: u64 = 500_000_000;

/// Guard against the throttling some systems apply after a focus change: when
/// armed and past its deadline, a scratch file is written once.
#[derive(Clone, Copy, Debug, PartialEq, Eq, Structural)]
pub struct FocusGuard {
    pub deadline: u64,
    pub armed: bool,
}

/// The state the event loop keeps between events.
#[derive(Clone, Copy, Debug, PartialEq, Eq, Structural)]
pub struct Controls {
    pub paused: bool,
    /// Whether frames are paced to the display rate.
    pub sleep: bool,
    pub muted: bool,
    pub focus_guard: FocusGuard,
    /// The longest a frame has taken so far, in nanoseconds.
    pub slowest_frame: u64,
}

/// What the event loop was started with.
#[derive(Clone, Copy, Debug, PartialEq, Eq, Structural)]
pub struct Settings {
    /// Whether the emulator has an audio stream.
    pub has_audio: bool,
    /// Whether leaving saves the state first.
    pub save_on_exit: bool,
}

/// What one window event brought: which keys were released, a focus change,
/// a new window size, and the time.
#[derive(Clone, Copy, Debug, PartialEq, Eq, Structural)]
pub struct InputEvent {
    /// P: pause or resume.
    pub pause_released: bool,
    /// Escape: leave.
    pub exit_released: bool,
    /// S: save the state.
    pub save_released: bool,
    /// F: switch frame pacing.
    pub fast_released: bool,
    /// M: mute or unmute.
    pub mute_released: bool,
    /// `Some(true)` when the window gained focus, `Some(false)` when it lost it.
    pub focus: Option<bool>,
    /// The window's new inner size, when it was resized.
    pub resized: Option<WindowSize>,
    /// When the event came, in nanoseconds.
    pub now: u64,
}

/// A window's inner size, in physical pixels.
#[derive(Clone, Copy, Debug, PartialEq, Eq, Structural)]
pub struct WindowSize {
    pub width: u32,
    pub height: u32,
}

/// What the event loop must do, in order.
#[derive(Clone, Copy, Debug, PartialEq, Eq, Structural)]
pub enum Action {
    PlayAudio,
    PauseAudio,
    /// Leave the emulator, saving the state first when `save` holds.
    Exit { save: bool },
    ResizeSurface(WindowSize),
    WriteFocusGuardFile,
    SaveState,
    RunFrame,
}

/// The state a session starts in.
pub open spec fn initial_controls(sleep: bool, now: u64) -> Controls {
    Controls {
        paused: false,
        sleep,
        muted: false,
        focus_guard: FocusGuard { deadline: now, armed: true },
        slowest_frame: 0,
    }
}

/// What the event loop does before the first event: start the audio.
pub open spec fn start_actions(settings: Settings) -> Seq<Action> {
    if settings.has_audio {
        seq![Action::PlayAudio]
    } else {
        seq![]
    }
}

/// The audio action of the pause key, given the pause state after it.
pub open spec fn pause_audio(settings: Settings, paused: bool, muted: bool) -> Seq<Action> {
    if !settings.has_audio {
        seq![]
    } else if paused {
        seq![Action::PauseAudio]
    } else if !muted {
        seq![Action::PlayAudio]
    } else {
        seq![]
    }
}

/// The audio action of the mute key, given the mute state after it.
pub open spec fn mute_audio(settings: Settings, muted: bool) -> Seq<Action> {
    if !settings.has_audio {
        seq![]
    } else if muted {
        seq![Action::PauseAudio]
    } else {
        seq![Action::PlayAudio]
    }
}

/// The audio action of a focus change.
pub open spec fn focus_audio(settings: Settings, focus: Option<bool>, paused: bool, muted: bool) -> Seq<Action> {
    match focus {
        Some(true) => if settings.has_audio && !muted && !paused {
            seq![Action::PlayAudio]
        } else {
            seq![]
        },
        Some(false) => if settings.has_audio {
            seq![Action::PauseAudio]
        } else {
            seq![]
        },
        None => seq![],
    }
}

/// Whether the focus guard fires on this event, given the pause state.
pub open spec fn guard_fires(guard: FocusGuard, paused: bool, now: u64) -> bool {
    !paused && guard.armed && now > guard.deadline
}

/// The focus guard after an event: disarmed once it fires, and re-armed to
/// fire `FOCUS_GUARD_DELAY` later when the window regains focus while frames
/// are not paced.
pub open spec fn next_guard(guard: FocusGuard, paused: bool, sleep: bool, e: InputEvent) -> FocusGuard {
    let after_fire = if guard_fires(guard, paused, e.now) {
        FocusGuard { armed: false, ..guard }
    } else {
        guard
    };
    if e.focus == Some(true) && !sleep {
        FocusGuard { deadline: (e.now + FOCUS_GUARD_DELAY) as u64, armed: true }
    } else {
        after_fire
    }
}

/// The state after an event: each of the pause, fast and mute keys flips
/// its own setting.
pub open spec fn next_controls(c: Controls, e: InputEvent) -> Controls {
    let paused = c.paused != e.pause_released;
    Controls {
        paused,
        sleep: c.sleep != e.fast_released,
        muted: c.muted != e.mute_released,
        focus_guard: next_guard(c.focus_guard, paused, c.sleep, e),
        slowest_frame: c.slowest_frame,
    }
}

/// `[a]` when `cond` holds, else nothing.
pub open spec fn when(cond: bool, a: Action) -> Seq<Action> {
    if cond {
        seq![a]
    } else {
        seq![]
    }
}

/// The resize of the drawing surface, when the window was resized.
pub open spec fn resize_actions(resized: Option<WindowSize>) -> Seq<Action> {
    match resized {
        Some(size) => seq![Action::ResizeSurface(size)],
        None => seq![],
    }
}

/// The actions of an event, in the order the event loop performs them:
/// the pause key's audio action, leaving, resizing, the focus guard, the
/// focus change's audio action, saving, the mute key's audio action, and a
/// frame when not paused.
pub open spec fn event_actions(c: Controls, settings: Settings, e: InputEvent) -> Seq<Action> {
    let paused = c.paused != e.pause_released;
    let muted = c.muted != e.mute_released;
    (if e.pause_released {
        pause_audio(settings, paused, c.muted)
    } else {
        seq![]
    }) + when(e.exit_released, Action::Exit { save: settings.save_on_exit }) + resize_actions(
        e.resized,
    ) + when(guard_fires(c.focus_guard, paused, e.now), Action::WriteFocusGuardFile)
        + focus_audio(settings, e.focus, paused, c.muted) + when(e.save_released, Action::SaveState)
        + (if e.mute_released {
        mute_audio(settings, muted)
    } else {
        seq![]
    }) + when(!paused, Action::RunFrame)
}

/// Where the focus guard's deadline fits in 64 bits.
pub open spec fn event_fits(c: Controls, e: InputEvent) -> bool {
    e.focus == Some(true) && !c.sleep ==> e.now + FOCUS_GUARD_DELAY <= u64::MAX
}

/// `[a]` when `cond` holds, else nothing.
fn single_if(cond: bool, a: Action) -> (r: Vec<Action>)
    ensures
        r@ == when(cond, a),
{
    let mut r: Vec<Action> = Vec::new();
    if cond {
        r.push(a);
    }
    assert(r@ =~= when(cond, a));
    r
}

/// The resize of the drawing surface, when the window was resized.
fn resize_of(resized: Option<WindowSize>) -> (r: Vec<Action>)
    ensures
        r@ == resize_actions(resized),
{
    let mut r: Vec<Action> = Vec::new();
    if let Some(size) = resized {
        r.push(Action::ResizeSurface(size));
    }
    assert(r@ =~= resize_actions(resized));
    r
}

/// The audio action of the pause key.
fn audio_after_pause(settings: Settings, paused: bool, muted: bool) -> (r: Vec<Action>)
    ensures
        r@ == pause_audio(settings, paused, muted),
{
    let mut r: Vec<Action> = Vec::new();
    if settings.has_audio {
        if paused {
            r.push(Action::PauseAudio);
        } else if !muted {
            r.push(Action::PlayAudio);
        }
    }
    assert(r@ =~= pause_audio(settings, paused, muted));
    r
}

/// The audio action of the mute key.
fn audio_after_mute(settings: Settings, muted: bool) -> (r: Vec<Action>)
    ensures
        r@ == mute_audio(settings, muted),
{
    let mut r: Vec<Action> = Vec::new();
    if settings.has_audio {
        if muted {
            r.push(Action::PauseAudio);
        } else {
            r.push(Action::PlayAudio);
        }
    }
    assert(r@ =~= mute_audio(settings, muted));
    r
}

/// The audio action of a focus change.
fn audio_after_focus(settings: Settings, focus: Option<bool>, paused: bool, muted: bool) -> (r: Vec<
    Action,
>)
    ensures
        r@ == focus_audio(settings, focus, paused, muted),
{
    let mut r: Vec<Action> = Vec::new();
    if focus == Some(true) {
        if settings.has_audio && !muted && !paused {
            r.push(Action::PlayAudio);
        }
    }
    if focus == Some(false) {
        if settings.has_audio {
            r.push(Action::PauseAudio);
        }
    }
    assert(r@ =~= focus_audio(settings, focus, paused, muted));
    r
}

impl Controls {
    /// A session that paces frames when `sleep` holds, started at `now`.
    pub fn new(sleep: bool, now: u64) -> (r: Controls)
        ensures
            r == initial_controls(sleep, now),
    {
        Controls {
            paused: false,
            sleep,
            muted: false,
            focus_guard: FocusGuard { deadline: now, armed: true },
            slowest_frame: 0,
        }
    }

    /// The actions before the first event.
    pub fn start(settings: Settings) -> (r: Vec<Action>)
        ensures
            r@ == start_actions(settings),
    {
        let mut r: Vec<Action> = Vec::new();
        if settings.has_audio {
            r.push(Action::PlayAudio);
        }
        assert(r@ =~= start_actions(settings));
        r
    }

    /// Takes one event: updates the state and gives the actions to perform,
    /// in order.
    pub fn handle_event(&mut self, settings: Settings, e: InputEvent) -> (r: Vec<Action>)
        requires
            event_fits(*old(self), e),
        ensures
            *final(self) == next_controls(*old(self), e),
            r@ == event_actions(*old(self), settings, e),
    {
        let c = *self;
        let paused = c.paused != e.pause_released;
        let muted = c.muted != e.mute_released;

        let fires = !paused && c.focus_guard.armed && e.now > c.focus_guard.deadline;
        let mut r = if e.pause_released {
            audio_after_pause(settings, paused, c.muted)
        } else {
            Vec::new()
        };
        let mut part = single_if(e.exit_released, Action::Exit { save: settings.save_on_exit });
        r.append(&mut part);
        let mut part = resize_of(e.resized);
        r.append(&mut part);
        let mut part = single_if(fires, Action::WriteFocusGuardFile);
        r.append(&mut part);
        let mut part = audio_after_focus(settings, e.focus, paused, c.muted);
        r.append(&mut part);
        let mut part = single_if(e.save_released, Action::SaveState);
        r.append(&mut part);
        let mut part = if e.mute_released {
            audio_after_mute(settings, muted)
        } else {
            Vec::new()
        };
        r.append(&mut part);
        let mut part = single_if(!paused, Action::RunFrame);
        r.append(&mut part);

        let mut guard = c.focus_guard;
        if fires {
            guard.armed = false;
        }
        if e.focus == Some(true) && !c.sleep {
            guard = FocusGuard { deadline: e.now + FOCUS_GUARD_DELAY, armed: true };
        }
        *self = Controls {
            paused,
            sleep: c.sleep != e.fast_released,
            muted,
            focus_guard: guard,
            slowest_frame: c.slowest_frame,
        };
        r
    }

    /// Notes a frame that took `nanos` nanoseconds.
    pub fn note_frame_time(&mut self, nanos: u64)
        ensures
            final(self).slowest_frame == (if old(self).slowest_frame < nanos {
                nanos
            } else {
                old(self).slowest_frame
            }),
            final(self).paused == old(self).paused,
            final(self).sleep == old(self).sleep,
            final(self).muted == old(self).muted,
            final(self).focus_guard == old(self).focus_guard,
    {
        if self.slowest_frame < nanos {
            self.slowest_frame = nanos;
        }
    }
}

/// Whether `a` starts or stops the audio stream.
pub open spec fn is_audio(a: Action) -> bool {
    a == Action::PlayAudio || a == Action::PauseAudio
}

/// The last audio action of `actions`, if any.
pub open spec fn last_audio(actions: Seq<Action>) -> Option<Action>
    decreases actions.len(),
{
    if actions.len() == 0 {
        None
    } else if is_audio(actions.last()) {
        Some(actions.last())
    } else {
        last_audio(actions.drop_last())
    }
}

/// The last audio action of `a + b` is that of `b`, or that of `a` when `b`
/// has none.
proof fn lemma_last_audio_concat(a: Seq<Action>, b: Seq<Action>)
    ensures
        last_audio(a + b) == (if last_audio(b) is Some {
            last_audio(b)
        } else {
            last_audio(a)
        }),
    decreases b.len(),
{
    if b.len() == 0 {
        assert(a + b =~= a);
    } else {
        assert((a + b).drop_last() =~= a + b.drop_last());
        assert((a + b).last() == b.last());
        lemma_last_audio_concat(a, b.drop_last());
    }
}

/// Each of the pause, fast and mute keys flips its own setting and leaves the
/// others as they were; releasing one twice restores it.
pub proof fn lemma_keys_flip_their_setting(c: Controls, e: InputEvent)
    ensures
        next_controls(c, e).paused == (c.paused != e.pause_released),
        next_controls(c, e).sleep == (c.sleep != e.fast_released),
        next_controls(c, e).muted == (c.muted != e.mute_released),
        next_controls(next_controls(c, e), e).paused == c.paused,
        next_controls(next_controls(c, e), e).sleep == c.sleep,
        next_controls(next_controls(c, e), e).muted == c.muted,
        next_controls(c, e).slowest_frame == c.slowest_frame,
{
}

/// A frame is run on an event exactly when the emulator is not paused after
/// it, and it is the last thing done.
pub proof fn lemma_frame_runs_unless_paused(c: Controls, settings: Settings, e: InputEvent)
    ensures
        event_actions(c, settings, e).contains(Action::RunFrame) <==> !next_controls(c, e).paused,
        !next_controls(c, e).paused ==> event_actions(c, settings, e).last() == Action::RunFrame,
{
    broadcast use vstd::seq_lib::lemma_seq_concat_contains_all_elements;

    let paused = c.paused != e.pause_released;
    let muted = c.muted != e.mute_released;
    let p1 = if e.pause_released {
        pause_audio(settings, paused, c.muted)
    } else {
        seq![]
    };
    let p2 = when(e.exit_released, Action::Exit { save: settings.save_on_exit });
    let p3 = resize_actions(e.resized);
    let p4 = when(guard_fires(c.focus_guard, paused, e.now), Action::WriteFocusGuardFile);
    let p5 = focus_audio(settings, e.focus, paused, c.muted);
    let p6 = when(e.save_released, Action::SaveState);
    let p7 = if e.mute_released {
        mute_audio(settings, muted)
    } else {
        seq![]
    };
    let p8 = when(!paused, Action::RunFrame);
    let front = p1 + p2 + p3 + p4 + p5 + p6 + p7;
    assert(!p1.contains(Action::RunFrame));
    assert(!p2.contains(Action::RunFrame));
    assert(!p3.contains(Action::RunFrame));
    assert(!p4.contains(Action::RunFrame));
    assert(!p5.contains(Action::RunFrame));
    assert(!p6.contains(Action::RunFrame));
    assert(!p7.contains(Action::RunFrame));
    assert(!front.contains(Action::RunFrame));
    assert(event_actions(c, settings, e) == front + p8);
    if !paused {
        assert(p8[0] == Action::RunFrame);
        assert((front + p8).last() == p8.last());
    }
}

/// Leaving happens exactly when the exit key is released, and saves first
/// exactly when the session was started to save on exit.
pub proof fn lemma_exit_follows_setting(c: Controls, settings: Settings, e: InputEvent, save: bool)
    ensures
        event_actions(c, settings, e).contains(Action::Exit { save }) <==> (e.exit_released
            && save == settings.save_on_exit),
{
    broadcast use vstd::seq_lib::lemma_seq_concat_contains_all_elements;

    let x = Action::Exit { save };
    let paused = c.paused != e.pause_released;
    let muted = c.muted != e.mute_released;
    let p1 = if e.pause_released {
        pause_audio(settings, paused, c.muted)
    } else {
        seq![]
    };
    let p2 = when(e.exit_released, Action::Exit { save: settings.save_on_exit });
    let p3 = resize_actions(e.resized);
    let p4 = when(guard_fires(c.focus_guard, paused, e.now), Action::WriteFocusGuardFile);
    let p5 = focus_audio(settings, e.focus, paused, c.muted);
    let p6 = when(e.save_released, Action::SaveState);
    let p7 = if e.mute_released {
        mute_audio(settings, muted)
    } else {
        seq![]
    };
    let p8 = when(!paused, Action::RunFrame);
    assert(!p1.contains(x));
    assert(!p3.contains(x));
    assert(!p4.contains(x));
    assert(!p5.contains(x));
    assert(!p6.contains(x));
    assert(!p7.contains(x));
    assert(!p8.contains(x));
    if e.exit_released && save == settings.save_on_exit {
        assert(p2[0] == x);
    }
    assert(event_actions(c, settings, e) == p1 + p2 + p3 + p4 + p5 + p6 + p7 + p8);
}

/// Audio never plays on while muted: after an event, the last audio action
/// it brought starts the stream only when the emulator is not muted, and
/// stops it whenever the emulator is muted.
pub proof fn lemma_muted_audio_stays_stopped(c: Controls, settings: Settings, e: InputEvent)
    ensures
        last_audio(event_actions(c, settings, e)) == Some(Action::PlayAudio) ==> !next_controls(
            c,
            e,
        ).muted,
        next_controls(c, e).muted && last_audio(event_actions(c, settings, e)) is Some
            ==> last_audio(event_actions(c, settings, e)) == Some(Action::PauseAudio),
{
    let paused = c.paused != e.pause_released;
    let muted = c.muted != e.mute_released;
    let p1 = if e.pause_released {
        pause_audio(settings, paused, c.muted)
    } else {
        seq![]
    };
    let p2 = when(e.exit_released, Action::Exit { save: settings.save_on_exit });
    let p3 = resize_actions(e.resized);
    let p4 = when(guard_fires(c.focus_guard, paused, e.now), Action::WriteFocusGuardFile);
    let p5 = focus_audio(settings, e.focus, paused, c.muted);
    let p6 = when(e.save_released, Action::SaveState);
    let p7 = if e.mute_released {
        mute_audio(settings, muted)
    } else {
        seq![]
    };
    let p8 = when(!paused, Action::RunFrame);
    reveal_with_fuel(last_audio, 2);
    lemma_last_audio_concat(p1, p2);
    lemma_last_audio_concat(p1 + p2, p3);
    lemma_last_audio_concat(p1 + p2 + p3, p4);
    lemma_last_audio_concat(p1 + p2 + p3 + p4, p5);
    lemma_last_audio_concat(p1 + p2 + p3 + p4 + p5, p6);
    lemma_last_audio_concat(p1 + p2 + p3 + p4 + p5 + p6, p7);
    lemma_last_audio_concat(p1 + p2 + p3 + p4 + p5 + p6 + p7, p8);
    assert(event_actions(c, settings, e) == p1 + p2 + p3 + p4 + p5 + p6 + p7 + p8);
}

/// Before the first event the audio stream is started exactly when there is
/// one; whether the session saves on exit plays no part.
pub proof fn lemma_start_plays_audio_iff_stream(settings: Settings)
    ensures
        start_actions(settings).contains(Action::PlayAudio) <==> settings.has_audio,
        start_actions(settings) == start_actions(
            Settings { has_audio: settings.has_audio, save_on_exit: !settings.save_on_exit },
        ),
        start_actions(settings).len() <= 1,
        forall|a: Action| #[trigger] start_actions(settings).contains(a) ==> a == Action::PlayAudio,
{
    if settings.has_audio {
        assert(start_actions(settings)[0] == Action::PlayAudio);
    }
}

/// On an event that releases neither the pause nor the mute key, audio is
/// started only when the emulator is neither paused nor muted: regaining
/// focus does not restart the audio of a paused or muted emulator.
pub proof fn lemma_audio_plays_only_when_running(c: Controls, settings: Settings, e: InputEvent)
    requires
        !e.pause_released,
        !e.mute_released,
    ensures
        event_actions(c, settings, e).contains(Action::PlayAudio) ==> !c.paused && !c.muted,
        e.focus == Some(true) && settings.has_audio && !c.paused && !c.muted ==> event_actions(
            c,
            settings,
            e,
        ).contains(Action::PlayAudio),
        e.focus == Some(false) && settings.has_audio ==> event_actions(c, settings, e).contains(
            Action::PauseAudio,
        ),
{
    broadcast use vstd::seq_lib::lemma_seq_concat_contains_all_elements;

    let paused = c.paused != e.pause_released;
    let p1: Seq<Action> = seq![];
    let p2 = when(e.exit_released, Action::Exit { save: settings.save_on_exit });
    let p3 = resize_actions(e.resized);
    let p4 = when(guard_fires(c.focus_guard, paused, e.now), Action::WriteFocusGuardFile);
    let p5 = focus_audio(settings, e.focus, paused, c.muted);
    let p6 = when(e.save_released, Action::SaveState);
    let p7: Seq<Action> = seq![];
    let p8 = when(!paused, Action::RunFrame);
    let x = Action::PlayAudio;
    assert(!p2.contains(x));
    assert(!p3.contains(x));
    assert(!p4.contains(x));
    assert(!p6.contains(x));
    assert(!p8.contains(x));
    assert(!p1.contains(x));
    assert(!p7.contains(x));
    if p5.contains(x) {
        assert(!c.paused && !c.muted);
    }
    if e.focus == Some(true) && settings.has_audio && !c.paused && !c.muted {
        assert(p5[0] == x);
    }
    if e.focus == Some(false) && settings.has_audio {
        assert(p5[0] == Action::PauseAudio);
    }
    assert(event_actions(c, settings, e) == p1 + p2 + p3 + p4 + p5 + p6 + p7 + p8);
}

/// Regaining focus while paused starts no audio.
pub proof fn lemma_focus_while_paused_stays_silent(settings: Settings, muted: bool)
    ensures
        focus_audio(settings, Some(true), true, muted) == Seq::<Action>::empty(),
{
    assert(focus_audio(settings, Some(true), true, muted) =~= Seq::<Action>::empty());
}

/// A session starts running, unmuted, with the pacing asked for, its focus
/// guard armed at the start time and no frame recorded.
pub proof fn lemma_session_starts_running(sleep: bool, now: u64)
    ensures
        !initial_controls(sleep, now).paused,
        !initial_controls(sleep, now).muted,
        initial_controls(sleep, now).sleep == sleep,
        initial_controls(sleep, now).focus_guard == (FocusGuard { deadline: now, armed: true }),
        initial_controls(sleep, now).slowest_frame == 0,
{
}

/// The save key saves and a resize resizes the surface to the new size,
/// exactly then; the focus guard file is written exactly when the guard is
/// armed, past its deadline, and the emulator is running after the event.
pub proof fn lemma_keys_and_resizes_act(c: Controls, settings: Settings, e: InputEvent, size: WindowSize)
    ensures
        event_actions(c, settings, e).contains(Action::SaveState) <==> e.save_released,
        event_actions(c, settings, e).contains(Action::ResizeSurface(size)) <==> e.resized == Some(
            size,
        ),
        event_actions(c, settings, e).contains(Action::WriteFocusGuardFile) <==> (c.paused
            == e.pause_released && c.focus_guard.armed && e.now > c.focus_guard.deadline),
{
    broadcast use vstd::seq_lib::lemma_seq_concat_contains_all_elements;

    let paused = c.paused != e.pause_released;
    let muted = c.muted != e.mute_released;
    let p1 = if e.pause_released {
        pause_audio(settings, paused, c.muted)
    } else {
        seq![]
    };
    let p2 = when(e.exit_released, Action::Exit { save: settings.save_on_exit });
    let p3 = resize_actions(e.resized);
    let p4 = when(guard_fires(c.focus_guard, paused, e.now), Action::WriteFocusGuardFile);
    let p5 = focus_audio(settings, e.focus, paused, c.muted);
    let p6 = when(e.save_released, Action::SaveState);
    let p7 = if e.mute_released {
        mute_audio(settings, muted)
    } else {
        seq![]
    };
    let p8 = when(!paused, Action::RunFrame);
    let sv = Action::SaveState;
    let rs = Action::ResizeSurface(size);
    let gf = Action::WriteFocusGuardFile;
    assert(!p1.contains(sv) && !p1.contains(rs) && !p1.contains(gf));
    assert(!p2.contains(sv) && !p2.contains(rs) && !p2.contains(gf));
    assert(!p3.contains(sv) && !p3.contains(gf));
    assert(!p4.contains(sv) && !p4.contains(rs));
    assert(!p5.contains(sv) && !p5.contains(rs) && !p5.contains(gf));
    assert(!p6.contains(rs) && !p6.contains(gf));
    assert(!p7.contains(sv) && !p7.contains(rs) && !p7.contains(gf));
    assert(!p8.contains(sv) && !p8.contains(rs) && !p8.contains(gf));
    if e.save_released {
        assert(p6[0] == sv);
    }
    if e.resized == Some(size) {
        assert(p3[0] == rs);
    }
    if p3.contains(rs) {
        assert(p3[0] == rs);
    }
    if guard_fires(c.focus_guard, paused, e.now) {
        assert(p4[0] == gf);
    }
    assert(event_actions(c, settings, e) == p1 + p2 + p3 + p4 + p5 + p6 + p7 + p8);
}

/// The focus guard: regaining focus while frames are not paced arms it for
/// half a second later; otherwise it is disarmed when it fires and kept as it
/// was when it does not.
pub proof fn lemma_focus_guard_rearms(c: Controls, e: InputEvent)
    requires
        event_fits(c, e),
    ensures
        e.focus == Some(true) && !c.sleep ==> next_controls(c, e).focus_guard == (FocusGuard {
            deadline: (e.now + 500_000_000) as u64,
            armed: true,
        }),
        !(e.focus == Some(true) && !c.sleep) && c.paused == e.pause_released
            && c.focus_guard.armed && e.now > c.focus_guard.deadline ==> next_controls(
            c,
            e,
        ).focus_guard == (FocusGuard { deadline: c.focus_guard.deadline, armed: false }),
        !(e.focus == Some(true) && !c.sleep) && !(c.paused == e.pause_released
            && c.focus_guard.armed && e.now > c.focus_guard.deadline) ==> next_controls(
            c,
            e,
        ).focus_guard == c.focus_guard,
{
}

/// Pausing stops the audio; unpausing an unmuted emulator and unmuting
/// start it; muting stops it.
pub proof fn lemma_pause_and_mute_drive_audio(c: Controls, settings: Settings, e: InputEvent)
    requires
        settings.has_audio,
    ensures
        e.pause_released && !c.paused ==> event_actions(c, settings, e).contains(Action::PauseAudio),
        e.pause_released && c.paused && !c.muted ==> event_actions(c, settings, e).contains(
            Action::PlayAudio,
        ),
        e.mute_released ==> last_audio(event_actions(c, settings, e)) == Some(
            if c.muted {
                Action::PlayAudio
            } else {
                Action::PauseAudio
            },
        ),
{
    broadcast use vstd::seq_lib::lemma_seq_concat_contains_all_elements;

    let paused = c.paused != e.pause_released;
    let muted = c.muted != e.mute_released;
    let p1 = if e.pause_released {
        pause_audio(settings, paused, c.muted)
    } else {
        seq![]
    };
    let p2 = when(e.exit_released, Action::Exit { save: settings.save_on_exit });
    let p3 = resize_actions(e.resized);
    let p4 = when(guard_fires(c.focus_guard, paused, e.now), Action::WriteFocusGuardFile);
    let p5 = focus_audio(settings, e.focus, paused, c.muted);
    let p6 = when(e.save_released, Action::SaveState);
    let p7 = if e.mute_released {
        mute_audio(settings, muted)
    } else {
        seq![]
    };
    let p8 = when(!paused, Action::RunFrame);
    assert(event_actions(c, settings, e) == p1 + p2 + p3 + p4 + p5 + p6 + p7 + p8);
    if e.pause_released && !c.paused {
        assert(p1[0] == Action::PauseAudio);
    }
    if e.pause_released && c.paused && !c.muted {
        assert(p1[0] == Action::PlayAudio);
    }
    if e.mute_released {
        reveal_with_fuel(last_audio, 2);
        let front = p1 + p2 + p3 + p4 + p5 + p6;
        lemma_last_audio_concat(front, p7);
        lemma_last_audio_concat(front + p7, p8);
    }
}

} // verus!
