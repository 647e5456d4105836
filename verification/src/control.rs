//! Per-iteration control decisions of the main loop: cancellation-key
//! recognition, the session's enter/restore escape sequences, and the
//! composition of a scheduler advance with the physics steps it yields.

use vstd::prelude::*;
use crate::field::{HeatField, simulate_step, step_cells, step_rng};
use crate::rng::Rng;
use crate::sched::{SchedulerState, clamped_accumulator, steps_for};

verus! {

/// Whether the bytes returned by a non-blocking input poll request
/// cancellation: an interrupt byte (Ctrl+C), a bare escape byte, or an
/// escape followed by anything but `[` (so CSI key sequences such as
/// arrow keys are not taken as a quit request).
pub open spec fn cancel_requested(bytes: Seq<u8>) -> bool {
    bytes.len() >= 1 && (bytes[0] == 3 || (bytes[0] == 27 && (bytes.len() == 1 || bytes[1] != 91)))
}

/// Decide whether polled input bytes ask the animation to stop.
pub fn is_cancel_key(bytes: &Vec<u8>) -> (r: bool)
    ensures
        r == cancel_requested(bytes@),
{
    if bytes.len() == 0 {
        return false;
    }
    let b0 = bytes[0];
    if b0 == 3 {
        return true;
    }
    if b0 == 27 {
        if bytes.len() == 1 {
            return true;
        }
        return bytes[1] != 91;
    }
    false
}

/// Bytes that open the session: enable the alternate screen buffer, hide
/// the cursor, clear the screen, home the cursor.
pub open spec fn session_enter_seq() -> Seq<u8> {
    seq![27u8, 91, 63, 49, 48, 52, 57, 104, 27, 91, 63, 50, 53, 108, 27, 91, 50, 74, 27, 91, 72]
}

/// Bytes that restore the visible terminal state on every exit path:
/// reset graphics attributes, show the cursor, return to the primary
/// screen buffer.
pub open spec fn session_restore_seq() -> Seq<u8> {
    seq![27u8, 91, 48, 109, 27, 91, 63, 50, 53, 104, 27, 91, 63, 49, 48, 52, 57, 108]
}

/// Bytes that clear the whole screen (written after a resize).
pub open spec fn clear_screen_seq() -> Seq<u8> {
    seq![27u8, 91, 50, 74]
}

/// The session-opening escape bytes.
pub fn session_enter_sequence() -> (r: Vec<u8>)
    ensures
        r@ == session_enter_seq(),
{
    let mut out: Vec<u8> = Vec::new();
    out.push(27);
    out.push(91);
    out.push(63);
    out.push(49);
    out.push(48);
    out.push(52);
    out.push(57);
    out.push(104);
    out.push(27);
    out.push(91);
    out.push(63);
    out.push(50);
    out.push(53);
    out.push(108);
    out.push(27);
    out.push(91);
    out.push(50);
    out.push(74);
    out.push(27);
    out.push(91);
    out.push(72);
    proof {
        assert(out@ =~= session_enter_seq());
    }
    out
}

/// The terminal-restoring escape bytes.
pub fn session_restore_sequence() -> (r: Vec<u8>)
    ensures
        r@ == session_restore_seq(),
{
    let mut out: Vec<u8> = Vec::new();
    out.push(27);
    out.push(91);
    out.push(48);
    out.push(109);
    out.push(27);
    out.push(91);
    out.push(63);
    out.push(50);
    out.push(53);
    out.push(104);
    out.push(27);
    out.push(91);
    out.push(63);
    out.push(49);
    out.push(48);
    out.push(52);
    out.push(57);
    out.push(108);
    proof {
        assert(out@ =~= session_restore_seq());
    }
    out
}

/// The clear-screen escape bytes.
pub fn clear_screen_sequence() -> (r: Vec<u8>)
    ensures
        r@ == clear_screen_seq(),
{
    let mut out: Vec<u8> = Vec::new();
    out.push(27);
    out.push(91);
    out.push(50);
    out.push(74);
    proof {
        assert(out@ =~= clear_screen_seq());
    }
    out
}

/// The fallback terminal size used when the size query fails.
pub fn default_dimensions() -> (r: (usize, usize))
    ensures
        r.0 == 80,
        r.1 == 24,
{
    (80, 24)
}

/// The heat field after `n` physics steps from generator state `s`.
pub open spec fn multi_step_cells(c: Seq<u8>, w: int, h: int, s: u32, n: nat) -> Seq<u8>
    decreases n,
{
    if n == 0 {
        c
    } else {
        step_cells(
            multi_step_cells(c, w, h, s, (n - 1) as nat),
            w,
            h,
            multi_step_rng(s, w, (n - 1) as nat),
        )
    }
}

/// The generator state after `n` physics steps.
pub open spec fn multi_step_rng(s: u32, w: int, n: nat) -> u32
    decreases n,
{
    if n == 0 {
        s
    } else {
        step_rng(multi_step_rng(s, w, (n - 1) as nat), w)
    }
}

/// One iteration's physics: feed the measured elapsed wall time to the
/// scheduler and run exactly the number of whole physics steps it yields
/// (the fixed-step / variable-frame-rate decoupling).
pub fn run_physics(
    field: &mut HeatField,
    rng: &mut Rng,
    sched: &mut SchedulerState,
    elapsed_ns: u64,
) -> (steps: usize)
    requires
        old(field).wf(),
        old(sched).wf(),
    ensures
        final(field).wf(),
        final(field).width == old(field).width,
        final(field).height == old(field).height,
        final(sched).wf(),
        final(sched).step_ns == old(sched).step_ns,
        steps == steps_for(
            clamped_accumulator(old(sched).accumulated_ns as int, elapsed_ns as int),
            old(sched).step_ns as int,
        ),
        final(sched).accumulated_ns == clamped_accumulator(
            old(sched).accumulated_ns as int,
            elapsed_ns as int,
        ) - steps * old(sched).step_ns,
        final(field).cells@ == multi_step_cells(
            old(field).cells@,
            old(field).width as int,
            old(field).height as int,
            old(rng).0,
            steps as nat,
        ),
        final(rng).0 == multi_step_rng(old(rng).0, old(field).width as int, steps as nat),
{
    let steps = sched.advance(elapsed_ns);
    let ghost c0 = field.cells@;
    let ghost s0 = rng.0;
    let ghost w = field.width as int;
    let ghost h = field.height as int;
    let mut i: usize = 0;
    while i < steps
        invariant
            field.wf(),
            field.width == old(field).width,
            field.height == old(field).height,
            w == field.width as int,
            h == field.height as int,
            i <= steps,
            field.cells@ == multi_step_cells(c0, w, h, s0, i as nat),
            rng.0 == multi_step_rng(s0, w, i as nat),
        decreases steps - i,
    {
        simulate_step(field, rng);
        i += 1;
    }
    steps
}

} // verus!
