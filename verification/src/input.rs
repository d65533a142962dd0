//! Input events and their reduction to one signed vertical delta.

use vstd::prelude::*;
use crate::fixed::{
    div_toward_zero, divide_toward_zero, saturate, saturating_narrow, MICROS_PER_SECOND, UNIT,
};

verus! {

/// What a wheel event counts in.
#[derive(Clone, Copy, Debug, PartialEq, Eq, Structural)]
pub enum ScrollUnit {
    /// Lines: scaled by the tick's time and the scroll speed.
    Line,
    /// Pixels: taken as they are.
    Pixel,
}

/// How the pointer stands to a viewport.
#[derive(Clone, Copy, Debug, PartialEq, Eq, Structural)]
pub enum Interaction {
    /// The pointer is elsewhere.
    Away,
    /// The pointer is over the viewport.
    Hovered,
    /// The pointer is held down on the viewport.
    Pressed,
}

/// One input event for a viewport.
#[derive(Clone, Copy, Debug, PartialEq, Eq, Structural)]
pub enum InputEvent {
    /// A pointer or touch moved by this much, in thousandths, while held.
    Drag(i64),
    /// The wheel turned by this many thousandths of the given unit.
    Wheel(i32, ScrollUnit),
}

/// The delta of a wheel event of `axis` thousandths of a line, during a tick
/// of `dt_micros` microseconds at `scroll_speed` thousandths per second and
/// line: the product of the three, in thousandths.
pub open spec fn line_delta(axis: int, dt_micros: int, scroll_speed: int) -> int {
    div_toward_zero(axis * dt_micros * scroll_speed, (UNIT as int) * (MICROS_PER_SECOND as int))
}

/// The delta of a wheel event: unscaled for pixels, scaled for lines.
pub open spec fn wheel_delta_of(axis: int, unit: ScrollUnit, dt_micros: int, scroll_speed: int) -> int {
    match unit {
        ScrollUnit::Line => saturate(line_delta(axis, dt_micros, scroll_speed)),
        ScrollUnit::Pixel => axis,
    }
}

/// The delta of any event: a drag moves by what the pointer moved.
pub open spec fn normalized_delta(event: InputEvent, dt_micros: int, scroll_speed: int) -> int {
    match event {
        InputEvent::Drag(delta) => delta as int,
        InputEvent::Wheel(axis, unit) => wheel_delta_of(axis as int, unit, dt_micros, scroll_speed),
    }
}

/// Whether a viewport in the state `interaction` is the target of `event`:
/// a drag needs a pressed viewport, a wheel event a hovered one.
pub open spec fn is_target(interaction: Interaction, event: InputEvent) -> bool {
    match event {
        InputEvent::Drag(_) => interaction == Interaction::Pressed,
        InputEvent::Wheel(_, _) => interaction == Interaction::Hovered,
    }
}

/// Computes the delta of a wheel event. A line delta beyond the `i64` range
/// stops at its end.
pub fn wheel_delta(axis: i32, unit: ScrollUnit, dt_micros: u32, scroll_speed: i64) -> (delta: i64)
    ensures
        delta == wheel_delta_of(axis as int, unit, dt_micros as int, scroll_speed as int),
        unit == ScrollUnit::Pixel ==> delta == axis,
{
    match unit {
        ScrollUnit::Line => {
            assert(-0x8000_0000 * 0xffff_ffff <= axis * dt_micros <= 0x8000_0000 * 0xffff_ffff)
                by (nonlinear_arith)
                requires
                    -0x8000_0000 <= axis <= 0x7fff_ffff,
                    0 <= dt_micros <= 0xffff_ffff,
            ;
            let turned: i128 = axis as i128 * dt_micros as i128;
            assert(-0x8000_0000 * 0xffff_ffff * 0x8000_0000_0000_0000 <= turned * scroll_speed
                <= 0x8000_0000 * 0xffff_ffff * 0x8000_0000_0000_0000) by (nonlinear_arith)
                requires
                    -0x8000_0000 * 0xffff_ffff <= turned <= 0x8000_0000 * 0xffff_ffff,
                    -0x8000_0000_0000_0000 <= scroll_speed <= 0x7fff_ffff_ffff_ffff,
            ;
            let scaled: i128 = turned * scroll_speed as i128;
            assert(UNIT * MICROS_PER_SECOND == 1_000_000_000);
            let divisor: i128 = UNIT as i128 * MICROS_PER_SECOND as i128;
            saturating_narrow(divide_toward_zero(scaled, divisor))
        },
        ScrollUnit::Pixel => axis as i64,
    }
}

/// Reduces an event to its vertical delta in thousandths.
pub fn normalize(event: InputEvent, dt_micros: u32, scroll_speed: i64) -> (delta: i64)
    ensures
        delta == normalized_delta(event, dt_micros as int, scroll_speed as int),
{
    match event {
        InputEvent::Drag(delta) => delta,
        InputEvent::Wheel(axis, unit) => wheel_delta(axis, unit, dt_micros, scroll_speed),
    }
}

/// Tells whether a viewport in the state `interaction` takes `event`.
pub fn targets(interaction: Interaction, event: InputEvent) -> (taken: bool)
    ensures
        taken == is_target(interaction, event),
{
    match event {
        InputEvent::Drag(_) => interaction == Interaction::Pressed,
        InputEvent::Wheel(_, _) => interaction == Interaction::Hovered,
    }
}

} // verus!
