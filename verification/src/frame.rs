//! One emulated frame: counting the CPU's machine cycles against the frame's
//! budget, and pacing frames to the display rate. Times are nanoseconds on
//! a monotonic clock, counted from any fixed origin.

use vstd::prelude::*;

verus! {

/// Width of the Game Boy screen, in pixels.
pub const WIDTH: usize = 160;

/// Height of the Game Boy screen, in pixels.
pub const HEIGHT: usize = 144;

/// Machine cycles the CPU runs in one frame.
pub const CYCLES_PER_FRAME: u16 = 17556;

/// Length of one frame at the Game Boy's refresh rate, in nanoseconds.
pub const NANOS_PER_FRAME: u64 = 16742706;

/// A CPU step whose memory accesses did not account for all of its cycles
/// while the CPU was running.
#[derive(Clone, Copy, Debug, PartialEq, Eq, Structural)]
pub struct CycleMismatch {
    /// Cycles of the step that no memory access accounted for.
    pub mem_cycles: u16,
    /// Cycles the step took.
    pub cycles: u16,
    /// Cycles that the step's memory accesses accounted for.
    pub micro_ops: u16,
}

/// Whether a frame that has run `elapsed` cycles is complete.
pub fn frame_complete(elapsed: u16) -> (r: bool)
    ensures
        r == (elapsed >= CYCLES_PER_FRAME),
{
    elapsed >= CYCLES_PER_FRAME
}

/// Accounts one CPU step of `cycles` cycles, of which the step's memory
/// accesses accounted for `counted`. Gives the frame's new cycle count and
/// the cycles the memory unit must still be clocked for; those may be
/// non-zero only when the CPU was or is halted, else the step is refused.
pub fn account_step(elapsed: u16, cycles: u16, counted: u16, was_halted: bool, halted: bool) -> (r:
    Result<(u16, u16), CycleMismatch>)
    requires
        counted <= cycles,
        elapsed + cycles <= u16::MAX,
    ensures
        r is Ok <==> (cycles - counted == 0 || was_halted || halted),
        r matches Ok((e, m)) ==> e == elapsed + cycles && m == cycles - counted,
        r matches Err(x) ==> x == (CycleMismatch {
            mem_cycles: (cycles - counted) as u16,
            cycles,
            micro_ops: counted,
        }),
{
    let mem_cycles = cycles - counted;
    if mem_cycles != 0 && !was_halted && !halted {
        Err(CycleMismatch { mem_cycles, cycles, micro_ops: counted })
    } else {
        Ok((elapsed + cycles, mem_cycles))
    }
}

/// The pacing schedule: `frames` frames have been started since `origin`.
#[derive(Clone, Copy, Debug, PartialEq, Eq, Structural)]
pub struct FramePin {
    pub frames: u64,
    pub origin: u64,
}

impl FramePin {
    /// When the schedule's current frame is due to end.
    pub open spec fn deadline(self) -> int {
        self.origin + self.frames * NANOS_PER_FRAME
    }
}

/// The schedule of the frame that starts at `frame_start`: one frame more on
/// the current schedule, or a new schedule from `frame_start`.
pub open spec fn next_pin(pin: Option<FramePin>, frame_start: u64) -> FramePin {
    match pin {
        Some(p) => FramePin { frames: (p.frames + 1) as u64, origin: p.origin },
        None => FramePin { frames: 1, origin: frame_start },
    }
}

/// What a frame leaves for the next: the schedule to keep, and how long to
/// sleep before the next frame.
#[derive(Clone, Copy, Debug, PartialEq, Eq, Structural)]
pub struct FramePlan {
    pub pin: Option<FramePin>,
    pub sleep_nanos: u64,
}

/// The plan after a frame that started at `frame_start` and ended at `now`.
/// Without pacing the schedule is left as it was and nothing is slept. With
/// pacing, a frame that ends before its deadline keeps the schedule and
/// sleeps until the deadline; a late frame drops the schedule.
pub open spec fn frame_plan_of(pin: Option<FramePin>, sleep: bool, frame_start: u64, now: u64) -> FramePlan {
    if !sleep {
        FramePlan { pin, sleep_nanos: 0 }
    } else {
        let next = next_pin(pin, frame_start);
        if now < next.deadline() {
            FramePlan { pin: Some(next), sleep_nanos: (next.deadline() - now) as u64 }
        } else {
            FramePlan { pin: None, sleep_nanos: 0 }
        }
    }
}

/// Where the schedule's counts fit in 64 bits.
pub open spec fn pacing_fits(pin: Option<FramePin>, sleep: bool, frame_start: u64) -> bool {
    &&& (pin matches Some(p) ==> p.frames < u64::MAX)
    &&& (sleep ==> next_pin(pin, frame_start).deadline() <= u64::MAX)
}

/// Decides the pacing after a frame.
pub fn plan_frame(pin: Option<FramePin>, sleep: bool, frame_start: u64, now: u64) -> (r: FramePlan)
    requires
        pacing_fits(pin, sleep, frame_start),
    ensures
        r == frame_plan_of(pin, sleep, frame_start, now),
{
    let next = match pin {
        Some(p) => FramePin { frames: p.frames + 1, origin: p.origin },
        None => FramePin { frames: 1, origin: frame_start },
    };
    if !sleep {
        return FramePlan { pin, sleep_nanos: 0 };
    }
    assert(next.frames * NANOS_PER_FRAME <= next.deadline());
    let expected = next.origin + next.frames * NANOS_PER_FRAME;
    if now < expected {
        FramePlan { pin: Some(next), sleep_nanos: expected - now }
    } else {
        FramePlan { pin: None, sleep_nanos: 0 }
    }
}

/// On a kept schedule each frame is due exactly one frame length after the
/// one before it.
pub proof fn lemma_schedule_advances_one_frame(p: FramePin, frame_start: u64)
    requires
        p.frames < u64::MAX,
    ensures
        next_pin(Some(p), frame_start).deadline() == p.deadline() + NANOS_PER_FRAME,
        next_pin(Some(p), frame_start).origin == p.origin,
{
    assert((p.frames + 1) * NANOS_PER_FRAME == p.frames * NANOS_PER_FRAME + NANOS_PER_FRAME)
        by (nonlinear_arith);
}

/// A paced frame never sleeps past its deadline, and sleeps only when it
/// keeps the schedule.
pub proof fn lemma_sleep_ends_at_deadline(
    pin: Option<FramePin>,
    frame_start: u64,
    now: u64,
)
    requires
        pacing_fits(pin, true, frame_start),
    ensures
        ({
            let plan = frame_plan_of(pin, true, frame_start, now);
            &&& plan.sleep_nanos > 0 <==> plan.pin is Some
            &&& plan.pin matches Some(q) ==> now + plan.sleep_nanos == q.deadline()
        }),
{
}

/// With pacing on, a frame on a kept schedule of `frames` frames from
/// `origin` is due at `origin + (frames + 1) * NANOS_PER_FRAME`: ending
/// before that it keeps the schedule, one frame further and from the same
/// origin, and sleeps exactly until then; ending at or after it, the
/// schedule is dropped and nothing is slept.
pub proof fn lemma_kept_schedule_paces_from_its_origin(
    frames: u64,
    origin: u64,
    frame_start: u64,
    now: u64,
)
    requires
        frames < u64::MAX,
        origin + (frames + 1) * NANOS_PER_FRAME <= u64::MAX,
    ensures
        ({
            let plan = frame_plan_of(
                Some(FramePin { frames, origin }),
                true,
                frame_start,
                now,
            );
            let due = origin + (frames + 1) * NANOS_PER_FRAME;
            &&& now < due ==> plan.pin == Some(FramePin { frames: (frames + 1) as u64, origin })
                && now + plan.sleep_nanos == due
            &&& now >= due ==> plan.pin is None && plan.sleep_nanos == 0
        }),
{
}

/// With pacing on and no schedule, the frame starts one at its own start: it
/// is due one frame length after it started.
pub proof fn lemma_new_schedule_starts_at_frame(frame_start: u64, now: u64)
    requires
        frame_start + NANOS_PER_FRAME <= u64::MAX,
    ensures
        ({
            let plan = frame_plan_of(None, true, frame_start, now);
            let due = frame_start + NANOS_PER_FRAME;
            &&& now < due ==> plan.pin == Some(FramePin { frames: 1, origin: frame_start })
                && now + plan.sleep_nanos == due
            &&& now >= due ==> plan.pin is None && plan.sleep_nanos == 0
        }),
{
}

/// Without pacing the schedule is untouched and nothing is slept.
pub proof fn lemma_unpaced_frame_keeps_schedule(pin: Option<FramePin>, frame_start: u64, now: u64)
    ensures
        frame_plan_of(pin, false, frame_start, now) == (FramePlan { pin, sleep_nanos: 0 }),
{
}

} // verus!
