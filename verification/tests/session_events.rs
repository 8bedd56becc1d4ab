use ironboy::session::{Action, Controls, InputEvent, Settings, WindowSize, FOCUS_GUARD_DELAY};

fn quiet(now: u64) -> InputEvent {
    InputEvent {
        pause_released: false,
        exit_released: false,
        save_released: false,
        fast_released: false,
        mute_released: false,
        focus: None,
        resized: None,
        now,
    }
}

const AUDIO: Settings = Settings { has_audio: true, save_on_exit: false };

/// A session whose focus guard has already fired.
fn settled(sleep: bool) -> Controls {
    let mut c = Controls::new(sleep, 0);
    c.focus_guard.armed = false;
    c
}

#[test]
fn new_session_starts_running() {
    let c = Controls::new(true, 42);
    assert!(!c.paused && c.sleep && !c.muted);
    assert!(c.focus_guard.armed);
    assert_eq!(c.focus_guard.deadline, 42);
    assert_eq!(c.slowest_frame, 0);
}

#[test]
fn start_plays_audio_only_with_a_stream() {
    assert_eq!(Controls::start(AUDIO), vec![Action::PlayAudio]);
    assert_eq!(Controls::start(Settings { has_audio: false, save_on_exit: true }), vec![]);
}

#[test]
fn quiet_event_runs_a_frame() {
    let mut c = settled(true);
    assert_eq!(c.handle_event(AUDIO, quiet(1)), vec![Action::RunFrame]);
}

#[test]
fn pause_key_toggles_and_stops_frames() {
    let mut c = settled(true);
    let e = InputEvent { pause_released: true, ..quiet(1) };
    assert_eq!(c.handle_event(AUDIO, e), vec![Action::PauseAudio]);
    assert!(c.paused);
    assert_eq!(c.handle_event(AUDIO, quiet(2)), vec![]);
    assert_eq!(c.handle_event(AUDIO, e), vec![Action::PlayAudio, Action::RunFrame]);
    assert!(!c.paused);
}

#[test]
fn unpausing_while_muted_keeps_audio_off() {
    let mut c = settled(true);
    c.paused = true;
    c.muted = true;
    let e = InputEvent { pause_released: true, ..quiet(1) };
    assert_eq!(c.handle_event(AUDIO, e), vec![Action::RunFrame]);
}

#[test]
fn mute_key_toggles_audio() {
    let mut c = settled(true);
    let e = InputEvent { mute_released: true, ..quiet(1) };
    assert_eq!(c.handle_event(AUDIO, e), vec![Action::PauseAudio, Action::RunFrame]);
    assert!(c.muted);
    assert_eq!(c.handle_event(AUDIO, e), vec![Action::PlayAudio, Action::RunFrame]);
    assert!(!c.muted);
}

#[test]
fn fast_key_toggles_pacing() {
    let mut c = settled(true);
    let e = InputEvent { fast_released: true, ..quiet(1) };
    c.handle_event(AUDIO, e);
    assert!(!c.sleep);
    c.handle_event(AUDIO, e);
    assert!(c.sleep);
}

#[test]
fn exit_key_leaves_with_save_setting() {
    let mut c = settled(true);
    let e = InputEvent { exit_released: true, ..quiet(1) };
    assert_eq!(c.handle_event(AUDIO, e), vec![Action::Exit { save: false }, Action::RunFrame]);
    let saving = Settings { has_audio: false, save_on_exit: true };
    assert_eq!(c.handle_event(saving, e), vec![Action::Exit { save: true }, Action::RunFrame]);
}

#[test]
fn save_key_saves() {
    let mut c = settled(true);
    let e = InputEvent { save_released: true, ..quiet(1) };
    assert_eq!(c.handle_event(AUDIO, e), vec![Action::SaveState, Action::RunFrame]);
}

#[test]
fn resize_reaches_the_surface() {
    let mut c = settled(true);
    let size = WindowSize { width: 640, height: 576 };
    let e = InputEvent { resized: Some(size), ..quiet(1) };
    assert_eq!(c.handle_event(AUDIO, e), vec![Action::ResizeSurface(size), Action::RunFrame]);
}

#[test]
fn focus_changes_drive_audio() {
    let mut c = settled(true);
    let lost = InputEvent { focus: Some(false), ..quiet(1) };
    assert_eq!(c.handle_event(AUDIO, lost), vec![Action::PauseAudio, Action::RunFrame]);
    let gained = InputEvent { focus: Some(true), ..quiet(2) };
    assert_eq!(c.handle_event(AUDIO, gained), vec![Action::PlayAudio, Action::RunFrame]);
    c.muted = true;
    assert_eq!(c.handle_event(AUDIO, gained), vec![Action::RunFrame]);
}

#[test]
fn focus_guard_fires_once_after_its_deadline() {
    let mut c = Controls::new(true, 10);
    assert_eq!(c.handle_event(AUDIO, quiet(10)), vec![Action::RunFrame]);
    assert_eq!(c.handle_event(AUDIO, quiet(11)), vec![Action::WriteFocusGuardFile, Action::RunFrame]);
    assert!(!c.focus_guard.armed);
    assert_eq!(c.handle_event(AUDIO, quiet(12)), vec![Action::RunFrame]);
}

#[test]
fn focus_guard_rearms_on_focus_without_pacing() {
    let mut c = settled(false);
    let gained = InputEvent { focus: Some(true), ..quiet(100) };
    c.handle_event(Settings { has_audio: false, save_on_exit: false }, gained);
    assert!(c.focus_guard.armed);
    assert_eq!(c.focus_guard.deadline, 100 + FOCUS_GUARD_DELAY);
    let mut paced = settled(true);
    paced.handle_event(AUDIO, gained);
    assert!(!paced.focus_guard.armed);
}

#[test]
fn focus_guard_waits_while_paused() {
    let mut c = Controls::new(true, 0);
    c.paused = true;
    assert_eq!(c.handle_event(AUDIO, quiet(5)), vec![]);
    assert!(c.focus_guard.armed);
}

#[test]
fn all_keys_at_once_follow_the_order() {
    let mut c = settled(true);
    let e = InputEvent {
        pause_released: true,
        exit_released: true,
        save_released: true,
        fast_released: true,
        mute_released: true,
        focus: None,
        resized: None,
        now: 1,
    };
    assert_eq!(
        c.handle_event(AUDIO, e),
        vec![Action::PauseAudio, Action::Exit { save: false }, Action::SaveState, Action::PauseAudio]
    );
    assert!(c.paused && !c.sleep && c.muted);
}

#[test]
fn slowest_frame_is_the_maximum() {
    let mut c = settled(true);
    c.note_frame_time(5);
    c.note_frame_time(3);
    assert_eq!(c.slowest_frame, 5);
    c.note_frame_time(9);
    assert_eq!(c.slowest_frame, 9);
}
