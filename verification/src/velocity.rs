//! The velocity of a drag, estimated from the deltas summed over windows of
//! time and smoothed with the estimate before.

use vstd::prelude::*;
use crate::fixed::{
    div_toward_zero, divide_toward_zero, saturate, saturating_narrow, MICROS_PER_SECOND,
};

verus! {

/// The deltas of a drag that no velocity sample has taken up yet.
#[derive(Clone, Copy, Debug, PartialEq, Eq, Structural)]
pub struct DragDelta {
    /// Sum of the drag deltas since the window was opened.
    pub diff: i64,
    /// The time, in microseconds, at which the window was opened.
    pub time: u64,
}

/// The velocity, in thousandths per second, of `diff` thousandths moved in
/// `elapsed_micros` microseconds.
pub open spec fn velocity_sample(diff: int, elapsed_micros: int) -> int
    recommends
        elapsed_micros > 0,
{
    div_toward_zero(diff * (MICROS_PER_SECOND as int), elapsed_micros)
}

/// The mean of the velocity `previous` and the sample of a window.
pub open spec fn smoothed_velocity(previous: int, diff: int, elapsed_micros: int) -> int
    recommends
        elapsed_micros > 0,
{
    saturate(div_toward_zero(previous + velocity_sample(diff, elapsed_micros), 2))
}

/// Whether a delta that arrives at `now` closes the window: there is one,
/// and time has passed since it was opened.
pub open spec fn closes_window(window: Option<DragDelta>, now: u64) -> bool {
    match window {
        Some(open) => now > open.time,
        None => false,
    }
}

/// The window after a delta arrived at `now`. The first delta of a drag
/// opens a window that holds it. A delta at or before the window's own time
/// is summed up. A later one closes the window, and the next opens empty.
pub open spec fn window_after(window: Option<DragDelta>, delta: i64, now: u64) -> DragDelta {
    match window {
        None => DragDelta { diff: delta, time: now },
        Some(open) => if now > open.time {
            DragDelta { diff: 0, time: now }
        } else {
            DragDelta { diff: saturate(open.diff + delta) as i64, time: open.time }
        },
    }
}

/// The velocity after a delta arrived at `now`: smoothed with the sample of
/// the window where the delta closes it, else as before.
pub open spec fn velocity_after(window: Option<DragDelta>, previous: int, now: u64) -> int {
    match window {
        Some(open) => if now > open.time {
            smoothed_velocity(previous, open.diff as int, now - open.time)
        } else {
            previous
        },
        None => previous,
    }
}

/// The velocity that a delta arriving at `now` commits: the smoothed one
/// where the delta closes a window, else none.
pub open spec fn committed_velocity(window: Option<DragDelta>, previous: int, now: u64) -> Option<
    i64,
> {
    if closes_window(window, now) {
        Some(velocity_after(window, previous, now) as i64)
    } else {
        None
    }
}

/// Computes the mean of `previous` and the sample of a window that summed
/// `diff` over `elapsed_micros` microseconds.
pub fn smooth_velocity(previous: i64, diff: i64, elapsed_micros: u64) -> (velocity: i64)
    requires
        elapsed_micros > 0,
    ensures
        velocity == smoothed_velocity(previous as int, diff as int, elapsed_micros as int),
{
    assert(-0x8000_0000_0000_0000 * 1_000_000 <= diff * MICROS_PER_SECOND
        <= 0x8000_0000_0000_0000 * 1_000_000) by (nonlinear_arith)
        requires
            -0x8000_0000_0000_0000 <= diff <= 0x7fff_ffff_ffff_ffff,
            MICROS_PER_SECOND == 1_000_000,
    ;
    let moved: i128 = diff as i128 * MICROS_PER_SECOND as i128;
    let sample: i128 = divide_toward_zero(moved, elapsed_micros as i128);
    saturating_narrow(divide_toward_zero(previous as i128 + sample, 2))
}

/// Takes one drag delta into the estimate. It returns the window that is
/// open afterwards and, where the delta closed a window, the velocity that
/// was committed.
pub fn accumulate(window: Option<DragDelta>, previous: i64, delta: i64, now: u64) -> (taken: (
    DragDelta,
    Option<i64>,
))
    ensures
        taken.0 == window_after(window, delta, now),
        taken.1 == committed_velocity(window, previous as int, now),
        velocity_after(window, previous as int, now) == (match taken.1 {
            Some(velocity) => velocity,
            None => previous,
        }),
{
    match window {
        None => (DragDelta { diff: delta, time: now }, None),
        Some(open) => {
            if now > open.time {
                let velocity: i64 = smooth_velocity(previous, open.diff, now - open.time);
                (DragDelta { diff: 0, time: now }, Some(velocity))
            } else {
                let sum: i64 = saturating_narrow(open.diff as i128 + delta as i128);
                (DragDelta { diff: sum, time: open.time }, None)
            }
        },
    }
}

} // verus!
