//! Fixed-timestep frame scheduler: a wall-clock time surplus is
//! accumulated (clamped against catch-up spirals) and consumed in whole
//! physics steps, at most five per rendered frame.

use vstd::prelude::*;
use vstd::arithmetic::div_mod::{
    lemma_div_is_ordered, lemma_div_multiples_vanish, lemma_div_non_zero,
    lemma_fundamental_div_mod_converse,
};

verus! {

/// Lowest supported frame rate.
pub const MIN_FPS: u32 = 15;

/// Highest supported frame rate.
pub const MAX_FPS: u32 = 120;

/// Upper bound on the accumulated unsimulated time (0.25 s), the guard
/// against unbounded catch-up after a stall.
pub const MAX_ACCUMULATED_NANOS: u64 = 250_000_000;

/// Upper bound on physics steps consumed in one iteration.
pub const MAX_STEPS_PER_FRAME: usize = 5;

/// Nanoseconds in one second.
pub const NANOS_PER_SECOND: u64 = 1_000_000_000;

/// Clamp a requested frame rate into `[MIN_FPS, MAX_FPS]`.
pub fn clamp_fps(requested: u32) -> (r: u32)
    ensures
        r == if requested < MIN_FPS {
            MIN_FPS as int
        } else if requested > MAX_FPS {
            MAX_FPS as int
        } else {
            requested as int
        },
        MIN_FPS <= r <= MAX_FPS,
{
    if requested < MIN_FPS {
        MIN_FPS
    } else if requested > MAX_FPS {
        MAX_FPS
    } else {
        requested
    }
}

/// The accumulator after adding measured elapsed time, clamped to the
/// catch-up bound.
pub open spec fn clamped_accumulator(acc: int, elapsed: int) -> int {
    if acc + elapsed > MAX_ACCUMULATED_NANOS {
        MAX_ACCUMULATED_NANOS as int
    } else {
        acc + elapsed
    }
}

/// How many whole physics steps a clamped accumulator yields, capped at
/// `MAX_STEPS_PER_FRAME`.
pub open spec fn steps_for(clamped: int, step_ns: int) -> int {
    if clamped / step_ns < MAX_STEPS_PER_FRAME {
        clamped / step_ns
    } else {
        MAX_STEPS_PER_FRAME as int
    }
}

/// Scheduler state: the carried-over unsimulated time surplus and the
/// fixed physics step duration (equal to the target frame interval).
pub struct SchedulerState {
    pub accumulated_ns: u64,
    pub step_ns: u64,
}

impl SchedulerState {
    pub open spec fn wf(self) -> bool {
        &&& self.step_ns >= 1
        &&& self.accumulated_ns <= MAX_ACCUMULATED_NANOS
    }

    /// Derive the fixed physics step (= target frame interval) from the
    /// clamped frame rate; the accumulator starts empty.
    pub fn new(fps: u32) -> (r: SchedulerState)
        requires
            MIN_FPS <= fps <= MAX_FPS,
        ensures
            r.wf(),
            r.accumulated_ns == 0,
            r.step_ns == NANOS_PER_SECOND as int / fps as int,
    {
        let step_ns = NANOS_PER_SECOND / (fps as u64);
        proof {
            lemma_div_non_zero(NANOS_PER_SECOND as int, fps as int);
        }
        SchedulerState { accumulated_ns: 0, step_ns }
    }

    /// Add measured elapsed wall time to the accumulator (clamping it to
    /// the catch-up bound), then consume up to `MAX_STEPS_PER_FRAME` whole
    /// physics steps from it; the remainder carries to the next iteration.
    pub fn advance(&mut self, elapsed_ns: u64) -> (steps: usize)
        requires
            old(self).wf(),
        ensures
            final(self).wf(),
            final(self).step_ns == old(self).step_ns,
            steps == steps_for(
                clamped_accumulator(old(self).accumulated_ns as int, elapsed_ns as int),
                old(self).step_ns as int,
            ),
            final(self).accumulated_ns == clamped_accumulator(
                old(self).accumulated_ns as int,
                elapsed_ns as int,
            ) - steps * old(self).step_ns,
    {
        let mut acc: u64 = if elapsed_ns >= MAX_ACCUMULATED_NANOS {
            MAX_ACCUMULATED_NANOS
        } else {
            let sum = self.accumulated_ns + elapsed_ns;
            if sum > MAX_ACCUMULATED_NANOS {
                MAX_ACCUMULATED_NANOS
            } else {
                sum
            }
        };
        let ghost clamped = clamped_accumulator(old(self).accumulated_ns as int, elapsed_ns as int);
        assert(acc == clamped);
        let step = self.step_ns;
        let mut steps: usize = 0;
        while acc >= step && steps < MAX_STEPS_PER_FRAME
            invariant
                step == self.step_ns,
                step >= 1,
                steps <= MAX_STEPS_PER_FRAME,
                acc == clamped - steps * step,
                clamped <= MAX_ACCUMULATED_NANOS,
            decreases MAX_STEPS_PER_FRAME - steps,
        {
            acc = acc - step;
            proof {
                assert((steps + 1) * step == steps * step + step) by (nonlinear_arith);
            }
            steps = steps + 1;
        }
        proof {
            if steps < MAX_STEPS_PER_FRAME {
                lemma_fundamental_div_mod_converse(
                    clamped,
                    step as int,
                    steps as int,
                    clamped - steps * step,
                );
            } else {
                lemma_div_is_ordered(
                    MAX_STEPS_PER_FRAME as int * step as int,
                    clamped,
                    step as int,
                );
                lemma_div_multiples_vanish(MAX_STEPS_PER_FRAME as int, step as int);
            }
        }
        self.accumulated_ns = acc;
        steps
    }
}

/// How long to sleep after a frame: the part of the target interval the
/// iteration's wall-clock cost left over, or nothing when it overran.
pub fn remaining_sleep_ns(frame_cost_ns: u64, interval_ns: u64) -> (r: u64)
    ensures
        r == if frame_cost_ns < interval_ns {
            interval_ns - frame_cost_ns
        } else {
            0
        },
{
    if frame_cost_ns < interval_ns {
        interval_ns - frame_cost_ns
    } else {
        0
    }
}

} // verus!
