//! A kinetic scroll engine on fixed-point integers.
//!
//! A viewport shows part of a content that may be taller than it. The engine
//! keeps the vertical offset of the content, takes drags and wheel events,
//! and lets the content move on after a drag is released, slowed down by
//! friction, until it rests. Whatever happens, the offset stays between
//! `-max_scroll` and zero.
//!
//! Lengths, velocities, speeds and friction are counted in thousandths of a
//! unit ([`fixed::UNIT`]), time in microseconds. Quotients round toward
//! zero, and a result beyond the `i64` range stops at its end. The way of a
//! fling alone rounds away from zero, so that a fling that moves at all
//! moves the offset, but never past the place where it would rest.
//!
//! - [`content`]: the offset and its bounds.
//! - [`input`]: events and their reduction to one delta.
//! - [`velocity`]: the velocity of a drag, estimated over windows of time.
//! - [`fling`]: the decay of the velocity and the way travelled meanwhile.
//! - [`view`]: the scroll view and its states: idle, dragging, flinging.
//! - [`region`]: a view with its content, driven step by step.

pub mod content;
pub mod fixed;
pub mod fling;
pub mod input;
pub mod region;
pub mod velocity;
pub mod view;
