//! The fixed-timestep schedule of the window loop: the world is updated once for
//! every whole frame duration of time that has accumulated, and the rest carries
//! over to the next redraw.

use vstd::prelude::*;

verus! {

/// Updates per second.
pub const FPS: u32 = 60;

/// The duration of one update, in nanoseconds (one second divided by `FPS`).
pub const FRAME_DURATION_NANOS: u64 = 16_666_666;

/// How many updates are due for `accumulated` nanoseconds of elapsed time when
/// each update takes `frame` nanoseconds, and how much time is left over.
pub fn fixed_update_steps(accumulated: u64, frame: u64) -> (due: (u64, u64))
    requires
        frame > 0,
    ensures
        due.0 * frame + due.1 == accumulated,
        due.1 < frame,
{
    let mut steps: u64 = 0;
    let mut rest: u64 = accumulated;
    while rest >= frame
        invariant
            frame > 0,
            rest <= accumulated,
            steps * frame + rest == accumulated,
        decreases rest,
    {
        assert((steps + 1) * frame == steps * frame + frame) by (nonlinear_arith);
        assert(steps + 1 <= accumulated) by (nonlinear_arith)
            requires
                steps * frame + rest == accumulated,
                rest >= frame,
                frame > 0,
        ;
        steps = steps + 1;
        rest = rest - frame;
    }
    (steps, rest)
}

} // verus!

verus! {

/// The frame duration is one second divided by the number of updates per second.
pub proof fn law_frame_duration_matches_fps()
    ensures
        FRAME_DURATION_NANOS == 1_000_000_000int / (FPS as int),
{
}

} // verus!
