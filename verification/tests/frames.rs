use ironboy::frame::{
    account_step, frame_complete, plan_frame, CycleMismatch, FramePin, FramePlan, CYCLES_PER_FRAME,
    NANOS_PER_FRAME,
};
use ironboy::keys::{action_keys, direction_keys, held_keys, JoypadKey};

#[test]
fn frame_completes_at_budget() {
    assert!(!frame_complete(0));
    assert!(!frame_complete(CYCLES_PER_FRAME - 1));
    assert!(frame_complete(CYCLES_PER_FRAME));
    assert!(frame_complete(CYCLES_PER_FRAME + 3));
}

#[test]
fn step_fully_accounted_by_memory() {
    assert_eq!(account_step(100, 8, 8, false, false), Ok((108, 0)));
}

#[test]
fn step_with_missing_cycles_while_running_is_refused() {
    assert_eq!(
        account_step(100, 12, 8, false, false),
        Err(CycleMismatch { mem_cycles: 4, cycles: 12, micro_ops: 8 })
    );
}

#[test]
fn step_with_missing_cycles_while_halted_clocks_memory() {
    assert_eq!(account_step(100, 4, 0, true, true), Ok((104, 4)));
    assert_eq!(account_step(0, 4, 0, false, true), Ok((4, 4)));
    assert_eq!(account_step(0, 4, 0, true, false), Ok((4, 4)));
}

#[test]
fn unpaced_frame_keeps_schedule_and_does_not_sleep() {
    let pin = Some(FramePin { frames: 3, origin: 1000 });
    assert_eq!(plan_frame(pin, false, 5, 7), FramePlan { pin, sleep_nanos: 0 });
    assert_eq!(plan_frame(None, false, 5, 7), FramePlan { pin: None, sleep_nanos: 0 });
}

#[test]
fn first_paced_frame_starts_schedule() {
    let plan = plan_frame(None, true, 1000, 2000);
    assert_eq!(
        plan,
        FramePlan {
            pin: Some(FramePin { frames: 1, origin: 1000 }),
            sleep_nanos: 1000 + NANOS_PER_FRAME - 2000
        }
    );
}

#[test]
fn on_time_frame_advances_schedule() {
    let pin = Some(FramePin { frames: 2, origin: 0 });
    let now = 2 * NANOS_PER_FRAME + 10;
    let plan = plan_frame(pin, true, now - 5, now);
    assert_eq!(plan.pin, Some(FramePin { frames: 3, origin: 0 }));
    assert_eq!(now + plan.sleep_nanos, 3 * NANOS_PER_FRAME);
}

#[test]
fn late_frame_drops_schedule() {
    let pin = Some(FramePin { frames: 2, origin: 0 });
    let plan = plan_frame(pin, true, 0, 3 * NANOS_PER_FRAME);
    assert_eq!(plan, FramePlan { pin: None, sleep_nanos: 0 });
}

#[test]
fn joypad_key_groups() {
    assert_eq!(action_keys(), [JoypadKey::Z, JoypadKey::C, JoypadKey::Back, JoypadKey::Return]);
    assert_eq!(direction_keys(), [JoypadKey::Up, JoypadKey::Down, JoypadKey::Left, JoypadKey::Right]);
}

#[test]
fn held_keys_keeps_order() {
    let keys = direction_keys();
    assert_eq!(held_keys(&keys, &[true, false, false, true]), vec![JoypadKey::Up, JoypadKey::Right]);
    assert_eq!(held_keys(&keys, &[false; 4]), vec![]);
    assert_eq!(held_keys(&action_keys(), &[true; 4]), action_keys().to_vec());
}
