//! Timing rules: the deadline of the next tick, and the homing sequence that
//! parks every head at the home track before a song.
use crate::floppy_drive::{Direction, DriveState, NUM_TRACKS};
use vstd::prelude::*;

verus! {

/// When the next tick fires, and by how much this one overran its budget.
#[derive(Clone, Copy, Debug, PartialEq, Eq, Structural)]
pub struct TickSchedule {
    /// Microseconds until the next tick.
    pub wait_us: u64,
    /// How far the tick ran past its budget, in microseconds, if it did.
    pub overrun_us: Option<u64>,
}

/// Microseconds between two readings of the free-running 64-bit timer,
/// which counts modulo 2^64.
pub open spec fn elapsed_us(start_us: u64, end_us: u64) -> nat {
    if end_us >= start_us {
        (end_us - start_us) as nat
    } else {
        (end_us + 0x1_0000_0000_0000_0000 - start_us) as nat
    }
}

/// Deadline rule of the scheduler: a tick that took `elapsed` of its
/// `budget` arms the next one for the time left; one that took longer fires
/// the next one at once and reports the overrun.
pub fn schedule_next_tick(start_us: u64, end_us: u64, budget_us: u64) -> (r: TickSchedule)
    ensures
        elapsed_us(start_us, end_us) > budget_us ==> r.wait_us == 0 && r.overrun_us == Some(
            (elapsed_us(start_us, end_us) - budget_us) as u64,
        ),
        elapsed_us(start_us, end_us) <= budget_us ==> r.wait_us == budget_us - elapsed_us(
            start_us,
            end_us,
        ) && r.overrun_us is None,
{
    let elapsed: u64 = if end_us >= start_us {
        end_us - start_us
    } else {
        (u64::MAX - start_us) + end_us + 1
    };
    if elapsed > budget_us {
        TickSchedule { wait_us: 0, overrun_us: Some(elapsed - budget_us) }
    } else {
        TickSchedule { wait_us: budget_us - elapsed, overrun_us: None }
    }
}

/// Pause between two edges of a homing step pulse, in milliseconds.
pub const HOMING_STEP_PAUSE_MS: u32 = 3;

/// Pause after each homing sweep, in milliseconds.
pub const HOMING_SWEEP_PAUSE_MS: u32 = 200;

/// Number of sweeps across the disk in the homing sequence.
pub const HOMING_SWEEPS: usize = 3;

/// Steps in one homing sweep: four per track, then the pause.
pub const HOMING_SWEEP_LEN: usize = 321;

/// One step of the homing sequence.
#[derive(Clone, Copy, Debug, PartialEq, Eq, Structural)]
pub enum HomingStep {
    /// Shift this state's byte into every drive's register, then latch.
    Latch(DriveState),
    /// Wait this many milliseconds.
    Pause(u32),
}

/// Step `k` of the homing sequence: three sweeps of one step pulse per
/// track, towards home, away from it, and home again, with every drive
/// selected; each edge is held for three milliseconds, and each sweep ends
/// with a pause of 200 milliseconds.
pub open spec fn homing_step(k: nat) -> HomingStep {
    let sweep = k / HOMING_SWEEP_LEN as nat;
    let r = k % HOMING_SWEEP_LEN as nat;
    let direction = if sweep % 2 == 0 {
        Direction::Reverse
    } else {
        Direction::Forward
    };
    if r == 4 * NUM_TRACKS {
        HomingStep::Pause(HOMING_SWEEP_PAUSE_MS)
    } else if r % 4 == 0 {
        HomingStep::Latch(DriveState { drive_select: true, step: true, direction })
    } else if r % 4 == 2 {
        HomingStep::Latch(DriveState { drive_select: true, step: false, direction })
    } else {
        HomingStep::Pause(HOMING_STEP_PAUSE_MS)
    }
}

proof fn lemma_homing_index(sweep: nat, r: nat)
    requires
        r < HOMING_SWEEP_LEN,
    ensures
        (sweep * HOMING_SWEEP_LEN as nat + r) / HOMING_SWEEP_LEN as nat == sweep,
        (sweep * HOMING_SWEEP_LEN as nat + r) % HOMING_SWEEP_LEN as nat == r,
{
    vstd::arithmetic::div_mod::lemma_fundamental_div_mod_converse(
        (sweep * HOMING_SWEEP_LEN as nat + r) as int,
        HOMING_SWEEP_LEN as int,
        sweep as int,
        r as int,
    );
}

/// The homing sequence that parks every head at the home track.
pub fn homing_sequence() -> (r: Vec<HomingStep>)
    ensures
        r@.len() == HOMING_SWEEPS * HOMING_SWEEP_LEN,
        forall|k: int| 0 <= k < r@.len() ==> r@[k] == homing_step(k as nat),
{
    let mut steps: Vec<HomingStep> = Vec::new();
    let mut direction = Direction::Reverse;
    let mut sweep: usize = 0;
    while sweep < HOMING_SWEEPS
        invariant
            sweep <= HOMING_SWEEPS,
            steps@.len() == sweep * HOMING_SWEEP_LEN,
            direction == (if sweep % 2 == 0 {
                Direction::Reverse
            } else {
                Direction::Forward
            }),
            forall|k: int| 0 <= k < steps@.len() ==> steps@[k] == homing_step(k as nat),
        decreases HOMING_SWEEPS - sweep,
    {
        let mut track: u8 = 0;
        while track < NUM_TRACKS
            invariant
                sweep < HOMING_SWEEPS,
                track <= NUM_TRACKS,
                steps@.len() == sweep * HOMING_SWEEP_LEN + 4 * track,
                direction == (if sweep % 2 == 0 {
                    Direction::Reverse
                } else {
                    Direction::Forward
                }),
                forall|k: int| 0 <= k < steps@.len() ==> steps@[k] == homing_step(k as nat),
            decreases NUM_TRACKS - track,
        {
            let base = steps.len();
            proof {
                lemma_homing_index(sweep as nat, 4 * track as nat);
                lemma_homing_index(sweep as nat, 4 * track as nat + 1);
                lemma_homing_index(sweep as nat, 4 * track as nat + 2);
                lemma_homing_index(sweep as nat, 4 * track as nat + 3);
            }
            steps.push(
                HomingStep::Latch(DriveState { drive_select: true, step: true, direction }),
            );
            steps.push(HomingStep::Pause(HOMING_STEP_PAUSE_MS));
            steps.push(
                HomingStep::Latch(DriveState { drive_select: true, step: false, direction }),
            );
            steps.push(HomingStep::Pause(HOMING_STEP_PAUSE_MS));
            track = track + 1;
        }
        proof {
            lemma_homing_index(sweep as nat, 4 * NUM_TRACKS as nat);
        }
        steps.push(HomingStep::Pause(HOMING_SWEEP_PAUSE_MS));
        direction = direction.inverse();
        sweep = sweep + 1;
    }
    steps
}

} // verus!
