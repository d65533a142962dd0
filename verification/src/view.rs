//! The scroll view: its configuration, the velocity of its content and the
//! state machine that arbitrates between dragging, flinging and rest.

use vstd::prelude::*;
use crate::content::{scroll_all_by, ContentView, ScrollableContent};
use crate::fixed::{lemma_div_toward_zero_sign, lemma_quotient_bounded, magnitude, UNIT};
use crate::fling::{
    calc_position_and_velocity, decay_exponent, decay_factor_of, decayed_velocity,
    fling_displacement,
    lemma_decay_factor_bounds, lemma_decayed_velocity_slows, lemma_fling_displacement_direction,
    DECAY_ONE,
};
use crate::input::{
    is_target, normalized_delta, targets, wheel_delta, wheel_delta_of, InputEvent, Interaction,
    ScrollUnit,
};
use crate::velocity::{accumulate, committed_velocity, velocity_after, window_after, DragDelta};

verus! {

/// What a scroll view is doing.
#[derive(Clone, Copy, Debug, PartialEq, Eq, Structural)]
pub enum ScrollState {
    /// At rest: no drag, no velocity.
    Idle,
    /// A drag is under way.
    Dragging,
    /// The content moves on after a drag was released.
    Flinging,
}

/// The mathematical value of a [`ScrollView`].
pub struct ViewState {
    /// Multiplier of wheel input counted in lines; negative to invert.
    pub scroll_speed: int,
    /// Friction coefficient that slows a fling down, positive.
    pub friction: int,
    /// The speed at or below which a fling stops, positive.
    pub stop_threshold: int,
    /// Current vertical velocity.
    pub velocity: int,
    /// The window of the drag under way, if there is one.
    pub drag_delta: Option<DragDelta>,
}

impl ViewState {
    /// Friction and stop threshold are positive, and every number fits.
    pub open spec fn valid(self) -> bool {
        &&& i64::MIN <= self.scroll_speed <= i64::MAX
        &&& 0 < self.friction <= i64::MAX
        &&& 0 < self.stop_threshold <= i64::MAX
        &&& i64::MIN <= self.velocity <= i64::MAX
    }

    /// Dragging while a window is open; else flinging while there is any
    /// velocity; else idle.
    pub open spec fn state(self) -> ScrollState {
        if self.drag_delta.is_some() {
            ScrollState::Dragging
        } else if self.velocity != 0 {
            ScrollState::Flinging
        } else {
            ScrollState::Idle
        }
    }

    /// The velocity is above the stop threshold, in either direction.
    pub open spec fn is_fast(self) -> bool {
        magnitude(self.velocity) > self.stop_threshold
    }

    /// The view with another velocity and window.
    pub open spec fn with_motion(self, velocity: int, drag_delta: Option<DragDelta>) -> ViewState {
        ViewState {
            scroll_speed: self.scroll_speed,
            friction: self.friction,
            stop_threshold: self.stop_threshold,
            velocity,
            drag_delta,
        }
    }

    /// The view after a drag delta arrived at `now`: it is dragging, and
    /// its velocity changes only where the delta closes a window.
    pub open spec fn dragged(self, delta: i64, now: u64) -> ViewState {
        self.with_motion(
            velocity_after(self.drag_delta, self.velocity, now),
            Some(window_after(self.drag_delta, delta, now)),
        )
    }

    /// The view after the drag ended: the window is dropped without a last
    /// sample; a velocity above the stop threshold seeds a fling, any other
    /// is set to zero.
    pub open spec fn released(self) -> ViewState {
        self.with_motion(
            if self.is_fast() {
                self.velocity
            } else {
                0
            },
            None,
        )
    }

    /// The fraction of the velocity that a tick of `dt_micros` leaves.
    pub open spec fn decay(self, dt_micros: int) -> int {
        decay_factor_of(self.friction, dt_micros)
    }

    /// The view after a tick of `dt_micros`: unchanged while dragging; a
    /// fast velocity decays; a slow one is set to zero.
    pub open spec fn flung(self, dt_micros: int) -> ViewState {
        if self.drag_delta.is_some() {
            self
        } else if self.is_fast() {
            self.with_motion(decayed_velocity(self.velocity, self.decay(dt_micros)), None)
        } else {
            self.with_motion(0, None)
        }
    }

    /// Whether a tick of `dt_micros` moves the contents: no drag is under
    /// way, the velocity is above the stop threshold, the tick takes time,
    /// and the fling has a thousandth to go before friction brings it to
    /// rest.
    pub open spec fn fling_is_felt(self, dt_micros: int) -> bool {
        &&& self.drag_delta.is_none()
        &&& self.is_fast()
        &&& dt_micros > 0
        &&& self.friction <= magnitude(self.velocity) * (UNIT as int)
    }

    /// Whether `after` lies from `before` where the velocity points; of a
    /// content that was at that end of its bounds already nothing is asked.
    pub open spec fn has_moved(self, before: ContentView, after: ContentView) -> bool {
        &&& self.velocity < 0 && before.pos_y > -before.max_scroll ==> after.pos_y
            < before.pos_y
        &&& self.velocity > 0 && before.pos_y < 0 ==> after.pos_y > before.pos_y
    }

    /// The view after `ticks` ticks of `dt_micros` each.
    pub open spec fn flung_times(self, dt_micros: int, ticks: nat) -> ViewState
        decreases ticks,
    {
        if ticks == 0 {
            self
        } else {
            self.flung(dt_micros).flung_times(dt_micros, (ticks - 1) as nat)
        }
    }

    /// The view after the ticks of `ticks`, one after the other, each as long
    /// as its entry says.
    pub open spec fn flung_through(self, ticks: Seq<int>) -> ViewState
        decreases ticks.len(),
    {
        if ticks.len() == 0 {
            self
        } else {
            self.flung_through(ticks.drop_last()).flung(ticks.last())
        }
    }

    /// A content of the view after a tick of `dt_micros`: it moves only
    /// while the view is not dragged and fast, by the way of the fling.
    pub open spec fn fling_content(self, content: ContentView, dt_micros: int) -> ContentView {
        if self.drag_delta.is_none() && self.is_fast() {
            content.scrolled_by(
                fling_displacement(self.velocity, self.friction, self.decay(dt_micros)),
            )
        } else {
            content
        }
    }

    /// A content of the view after a wheel event: it moves only under a
    /// hovered view, by the delta of the event.
    pub open spec fn wheel_content(
        self,
        content: ContentView,
        interaction: Interaction,
        axis: int,
        unit: ScrollUnit,
        dt_micros: int,
    ) -> ContentView {
        if interaction == Interaction::Hovered {
            content.scrolled_by(wheel_delta_of(axis, unit, dt_micros, self.scroll_speed))
        } else {
            content
        }
    }

    /// The view after `event`: a drag that targets it is taken into the
    /// velocity estimate; any other event leaves it as it is.
    pub open spec fn after_event(self, interaction: Interaction, event: InputEvent, now: u64) -> ViewState {
        match event {
            InputEvent::Drag(delta) => if is_target(interaction, event) {
                self.dragged(delta, now)
            } else {
                self
            },
            InputEvent::Wheel(_, _) => self,
        }
    }

    /// A content of the view after `event`: it moves by the delta of the
    /// event where the event targets the view, else not at all.
    pub open spec fn event_content(
        self,
        content: ContentView,
        interaction: Interaction,
        event: InputEvent,
        dt_micros: int,
    ) -> ContentView {
        if is_target(interaction, event) {
            content.scrolled_by(normalized_delta(event, dt_micros, self.scroll_speed))
        } else {
            content
        }
    }
}

/// Whatever a view does to a content, a tick of a fling or an event of
/// either kind, the content ends between `-max_scroll` and zero.
pub proof fn lemma_view_steps_stay_in_bounds(
    view: ViewState,
    content: ContentView,
    interaction: Interaction,
    event: InputEvent,
    axis: int,
    unit: ScrollUnit,
    dt_micros: int,
)
    requires
        content.in_bounds(),
    ensures
        view.fling_content(content, dt_micros).in_bounds(),
        view.wheel_content(content, interaction, axis, unit, dt_micros).in_bounds(),
        view.event_content(content, interaction, event, dt_micros).in_bounds(),
{
}

/// A tick of a fling never makes the content faster or turns it round, and
/// once any time has passed it makes a moving content strictly slower.
pub proof fn lemma_fling_slows_down(view: ViewState, dt_micros: int)
    requires
        view.valid(),
        view.drag_delta.is_none(),
        dt_micros >= 0,
    ensures
        view.flung(dt_micros).valid(),
        view.flung(dt_micros).drag_delta.is_none(),
        magnitude(view.flung(dt_micros).velocity) <= magnitude(view.velocity),
        dt_micros > 0 && view.velocity != 0 ==> magnitude(view.flung(dt_micros).velocity)
            < magnitude(view.velocity),
{
    lemma_decay_factor_bounds(view.friction, dt_micros);
    lemma_decayed_velocity_slows(view.velocity, view.decay(dt_micros));
}

/// A fling moves the content the way the velocity points, never out of its
/// bounds, and in one tick never farther than the whole way to the place
/// where friction would bring it to rest.
pub proof fn lemma_fling_moves_with_velocity(view: ViewState, content: ContentView, dt_micros: int)
    requires
        view.valid(),
        content.in_bounds(),
        dt_micros >= 0,
    ensures
        view.fling_content(content, dt_micros).in_bounds(),
        view.velocity <= 0 ==> view.fling_content(content, dt_micros).pos_y <= content.pos_y,
        view.velocity >= 0 ==> view.fling_content(content, dt_micros).pos_y >= content.pos_y,
        magnitude(view.fling_content(content, dt_micros).pos_y - content.pos_y) * view.friction
            <= magnitude(view.velocity) * (UNIT as int),
{
    lemma_decay_factor_bounds(view.friction, dt_micros);
    lemma_fling_displacement_direction(view.velocity, view.friction, view.decay(dt_micros));
    let way = magnitude(fling_displacement(view.velocity, view.friction, view.decay(dt_micros)));
    let moved = magnitude(view.fling_content(content, dt_micros).pos_y - content.pos_y);
    assert(moved * view.friction <= way * view.friction) by (nonlinear_arith)
        requires
            0 <= moved <= way,
            view.friction > 0,
    ;
}

/// A fling that is fast moves the content at every tick that takes time,
/// as long as the content has not reached the end it moves toward. This
/// holds of every fling that has a thousandth to go before friction brings
/// it to rest: the offset counts thousandths, and never passes the place of
/// rest.
pub proof fn lemma_fast_fling_moves(view: ViewState, content: ContentView, dt_micros: int)
    requires
        view.valid(),
        view.drag_delta.is_none(),
        view.is_fast(),
        view.friction <= magnitude(view.velocity) * (UNIT as int),
        content.in_bounds(),
        dt_micros > 0,
    ensures
        view.velocity < 0 && content.pos_y > -content.max_scroll ==> view.fling_content(
            content,
            dt_micros,
        ).pos_y < content.pos_y,
        view.velocity > 0 && content.pos_y < 0 ==> view.fling_content(content, dt_micros).pos_y
            > content.pos_y,
        view.has_moved(content, view.fling_content(content, dt_micros)),
        view.fling_content(content, dt_micros).in_bounds(),
{
    lemma_decay_factor_bounds(view.friction, dt_micros);
    lemma_fling_displacement_direction(view.velocity, view.friction, view.decay(dt_micros));
}

/// `base` multiplied by itself `exponent` times.
pub open spec fn power(base: int, exponent: nat) -> int
    decreases exponent,
{
    if exponent == 0 {
        1
    } else {
        base * power(base, (exponent - 1) as nat)
    }
}

/// A power of a number that is not negative is not negative, and a power
/// of a positive number is positive.
pub proof fn lemma_power_sign(base: int, exponent: nat)
    requires
        base >= 0,
    ensures
        power(base, exponent) >= 0,
        base > 0 ==> power(base, exponent) > 0,
    decreases exponent,
{
    if exponent > 0 {
        lemma_power_sign(base, (exponent - 1) as nat);
        let rest = power(base, (exponent - 1) as nat);
        assert(base * rest >= 0 && (base > 0 && rest > 0 ==> base * rest > 0))
            by (nonlinear_arith)
            requires
                base >= 0,
                rest >= 0,
        ;
    }
}

/// Ticks after ticks are as many ticks in one go.
pub proof fn lemma_flung_times_split(view: ViewState, dt_micros: int, first: nat, then_more: nat)
    ensures
        view.flung_times(dt_micros, first + then_more) == view.flung_times(
            dt_micros,
            first,
        ).flung_times(dt_micros, then_more),
    decreases first,
{
    if first > 0 {
        lemma_flung_times_split(view.flung(dt_micros), dt_micros, (first - 1) as nat, then_more);
    }
}

/// The speed of a fling falls geometrically: after `ticks` ticks of
/// `dt_micros` each it is at most the first speed times the decay factor of
/// one tick to the power of `ticks`.
pub proof fn lemma_fling_decays_geometrically(view: ViewState, dt_micros: int, ticks: nat)
    requires
        view.valid(),
        view.drag_delta.is_none(),
        dt_micros >= 0,
    ensures
        magnitude(view.flung_times(dt_micros, ticks).velocity) * power(DECAY_ONE as int, ticks)
            <= magnitude(view.velocity) * power(view.decay(dt_micros), ticks),
    decreases ticks,
{
    if ticks > 0 {
        let one = DECAY_ONE as int;
        let decay = view.decay(dt_micros);
        let next = view.flung(dt_micros);
        let rest = (ticks - 1) as nat;
        let speed = magnitude(view.velocity);
        let slower = magnitude(next.velocity);
        let last = magnitude(view.flung_times(dt_micros, ticks).velocity);
        lemma_decay_factor_bounds(view.friction, dt_micros);
        lemma_fling_slows_down(view, dt_micros);
        lemma_fling_decays_geometrically(next, dt_micros, rest);
        lemma_power_sign(one, rest);
        lemma_power_sign(decay, rest);
        assert(slower * one <= speed * decay) by {
            if view.is_fast() {
                lemma_div_toward_zero_sign(view.velocity * decay, one);
                assert(magnitude(view.velocity * decay) == speed * decay) by (nonlinear_arith)
                    requires
                        0 <= decay,
                        speed == magnitude(view.velocity),
                ;
                lemma_quotient_bounded(speed * decay, one);
            } else {
                assert(speed * decay >= 0) by (nonlinear_arith)
                    requires
                        speed >= 0,
                        decay >= 0,
                ;
            }
        }
        let one_rest = power(one, rest);
        let decay_rest = power(decay, rest);
        assert(last * (one * one_rest) <= speed * (decay * decay_rest)) by (nonlinear_arith)
            requires
                last * one_rest <= slower * decay_rest,
                slower * one <= speed * decay,
                0 <= last,
                0 <= slower,
                0 <= speed,
                0 < one,
                0 <= decay,
                0 <= one_rest,
                0 <= decay_rest,
        {
            assert((last * one_rest) * one <= (slower * decay_rest) * one);
            assert((slower * one) * decay_rest <= (speed * decay) * decay_rest);
        }
    }
}

/// A fling rests within a number of ticks that grows with the logarithm of
/// its speed: once the first speed times the decay factor to the power of
/// `ticks` is at or below the stop threshold, the next tick sets the
/// velocity to zero, the view is idle, and so it stays.
pub proof fn lemma_fling_rests_in_time(view: ViewState, dt_micros: int, ticks: nat, more: nat)
    requires
        view.valid(),
        view.drag_delta.is_none(),
        dt_micros >= 0,
        magnitude(view.velocity) * power(view.decay(dt_micros), ticks) <= view.stop_threshold
            * power(DECAY_ONE as int, ticks),
    ensures
        view.flung_times(dt_micros, ticks + 1 + more).velocity == 0,
        view.flung_times(dt_micros, ticks + 1 + more).state() == ScrollState::Idle,
{
    let one = DECAY_ONE as int;
    let after = view.flung_times(dt_micros, ticks);
    let last = magnitude(after.velocity);
    let scale = power(one, ticks);
    lemma_fling_decays_geometrically(view, dt_micros, ticks);
    lemma_power_sign(one, ticks);
    assert(last <= view.stop_threshold) by (nonlinear_arith)
        requires
            last * scale <= view.stop_threshold * scale,
            scale > 0,
    ;
    lemma_fling_still_valid(view, dt_micros, ticks);
    lemma_flung_times_split(view, dt_micros, ticks, 1);
    assert(after.flung_times(dt_micros, 1) == after.flung(dt_micros)) by {
        assert(after.flung(dt_micros).flung_times(dt_micros, 0) == after.flung(dt_micros));
    }
    let rested = view.flung_times(dt_micros, ticks + 1);
    assert(rested.velocity == 0);
    lemma_fling_slows_down(after, dt_micros);
    lemma_flung_times_split(view, dt_micros, ticks + 1, more);
    lemma_fling_still_valid(rested, dt_micros, more);
}

/// Ticks keep a view without a drag valid and without a drag, and never
/// make it faster.
pub proof fn lemma_fling_still_valid(view: ViewState, dt_micros: int, ticks: nat)
    requires
        view.valid(),
        view.drag_delta.is_none(),
        dt_micros >= 0,
    ensures
        view.flung_times(dt_micros, ticks).valid(),
        view.flung_times(dt_micros, ticks).drag_delta.is_none(),
        view.flung_times(dt_micros, ticks).friction == view.friction,
        view.flung_times(dt_micros, ticks).stop_threshold == view.stop_threshold,
        magnitude(view.flung_times(dt_micros, ticks).velocity) <= magnitude(view.velocity),
    decreases ticks,
{
    if ticks > 0 {
        lemma_fling_slows_down(view, dt_micros);
        lemma_fling_still_valid(view.flung(dt_micros), dt_micros, (ticks - 1) as nat);
    }
}

/// One tick of at least `shortest` microseconds divides the speed by at
/// least one plus friction times `shortest`.
pub proof fn lemma_tick_divides_speed(view: ViewState, dt_micros: int, shortest: int)
    requires
        view.valid(),
        view.drag_delta.is_none(),
        0 <= shortest <= dt_micros,
    ensures
        magnitude(view.flung(dt_micros).velocity) * (DECAY_ONE as int + decay_exponent(
            view.friction,
            shortest,
        )) <= magnitude(view.velocity) * (DECAY_ONE as int),
        decay_exponent(view.friction, shortest) >= 0,
{
    let one = DECAY_ONE as int;
    let decay = view.decay(dt_micros);
    let speed = magnitude(view.velocity);
    let slower = magnitude(view.flung(dt_micros).velocity);
    let least = decay_exponent(view.friction, shortest);
    let whole = decay_exponent(view.friction, dt_micros);
    lemma_decay_factor_bounds(view.friction, dt_micros);
    lemma_fling_slows_down(view, dt_micros);
    assert(0 <= least <= whole) by (nonlinear_arith)
        requires
            view.friction > 0,
            0 <= shortest <= dt_micros,
            least == view.friction * shortest * 1073741824 / 1000000000,
            whole == view.friction * dt_micros * 1073741824 / 1000000000,
    ;
    assert(slower * one <= speed * decay) by {
        if view.is_fast() {
            lemma_div_toward_zero_sign(view.velocity * decay, one);
            assert(magnitude(view.velocity * decay) == speed * decay) by (nonlinear_arith)
                requires
                    0 <= decay,
                    speed == magnitude(view.velocity),
            ;
            lemma_quotient_bounded(speed * decay, one);
        } else {
            assert(speed * decay >= 0) by (nonlinear_arith)
                requires
                    speed >= 0,
                    decay >= 0,
            ;
        }
    }
    assert(slower * (one + least) <= speed * one) by (nonlinear_arith)
        requires
            slower * one <= speed * decay,
            decay * (one + whole) <= one * one,
            0 <= least <= whole,
            0 <= decay,
            0 <= slower,
            0 <= speed,
            one > 0,
    {
        assert((slower * one) * (one + least) <= (speed * decay) * (one + least));
        assert(decay * (one + least) <= decay * (one + whole));
        assert(speed * (decay * (one + least)) <= speed * (one * one));
        assert((slower * (one + least)) * one <= (speed * one) * one);
    }
}

/// However long the ticks are, if only none is shorter than `shortest`,
/// the speed of a fling falls geometrically: every tick divides it by at
/// least one plus friction times `shortest`.
pub proof fn lemma_fling_decays_through_ticks(view: ViewState, ticks: Seq<int>, shortest: int)
    requires
        view.valid(),
        view.drag_delta.is_none(),
        0 <= shortest,
        forall|i: int| 0 <= i < ticks.len() ==> shortest <= #[trigger] ticks[i],
    ensures
        view.flung_through(ticks).valid(),
        view.flung_through(ticks).drag_delta.is_none(),
        view.flung_through(ticks).friction == view.friction,
        view.flung_through(ticks).stop_threshold == view.stop_threshold,
        magnitude(view.flung_through(ticks).velocity) <= magnitude(view.velocity),
        magnitude(view.flung_through(ticks).velocity) * power(
            DECAY_ONE as int + decay_exponent(view.friction, shortest),
            ticks.len(),
        ) <= magnitude(view.velocity) * power(DECAY_ONE as int, ticks.len()),
    decreases ticks.len(),
{
    if ticks.len() > 0 {
        let one = DECAY_ONE as int;
        let growth = one + decay_exponent(view.friction, shortest);
        let before = view.flung_through(ticks.drop_last());
        let rest = ticks.drop_last().len();
        lemma_fling_decays_through_ticks(view, ticks.drop_last(), shortest);
        lemma_tick_divides_speed(before, ticks.last(), shortest);
        lemma_fling_slows_down(before, ticks.last());
        lemma_power_sign(one, rest);
        lemma_power_sign(growth, rest);
        let first = magnitude(view.velocity);
        let middle = magnitude(before.velocity);
        let last = magnitude(view.flung_through(ticks).velocity);
        let one_rest = power(one, rest);
        let growth_rest = power(growth, rest);
        assert(power(growth, ticks.len()) == growth * growth_rest);
        assert(power(one, ticks.len()) == one * one_rest);
        assert(last * (growth * growth_rest) <= first * (one * one_rest)) by (nonlinear_arith)
            requires
                last * growth <= middle * one,
                middle * growth_rest <= first * one_rest,
                0 <= last,
                0 <= middle,
                0 <= first,
                0 < one,
                0 < growth,
                0 <= one_rest,
                0 <= growth_rest,
        {
            assert((last * growth) * growth_rest <= (middle * one) * growth_rest);
            assert((middle * growth_rest) * one <= (first * one_rest) * one);
        }
    }
}

/// A fling rests within a number of ticks that grows with the logarithm of
/// its speed, however long the ticks are, if only none is shorter than
/// `shortest`: once the first speed, divided as many times as there were
/// ticks by one plus friction times `shortest`, is at or below the stop
/// threshold, the next tick sets the velocity to zero and the view is idle.
pub proof fn lemma_fling_rests_through_ticks(
    view: ViewState,
    ticks: Seq<int>,
    shortest: int,
    next: int,
)
    requires
        view.valid(),
        view.drag_delta.is_none(),
        0 <= shortest,
        forall|i: int| 0 <= i < ticks.len() ==> shortest <= #[trigger] ticks[i],
        magnitude(view.velocity) * power(DECAY_ONE as int, ticks.len()) <= view.stop_threshold
            * power(DECAY_ONE as int + decay_exponent(view.friction, shortest), ticks.len()),
    ensures
        view.flung_through(ticks).flung(next).velocity == 0,
        view.flung_through(ticks).flung(next).state() == ScrollState::Idle,
        view.flung_through(ticks.push(next)).velocity == 0,
{
    let growth = DECAY_ONE as int + decay_exponent(view.friction, shortest);
    let last = magnitude(view.flung_through(ticks).velocity);
    let scale = power(growth, ticks.len());
    lemma_fling_decays_through_ticks(view, ticks, shortest);
    lemma_tick_divides_speed(view, shortest, shortest);
    lemma_power_sign(growth, ticks.len());
    assert(last <= view.stop_threshold) by (nonlinear_arith)
        requires
            last * scale <= view.stop_threshold * scale,
            scale > 0,
    ;
    assert(ticks.push(next).drop_last() == ticks);
}

/// A fling comes to rest: each tick that takes time takes at least one
/// thousandth off the speed, so after as many ticks as the speed counts
/// thousandths the view is idle.
pub proof fn lemma_fling_comes_to_rest(view: ViewState, dt_micros: int, ticks: nat)
    requires
        view.valid(),
        view.drag_delta.is_none(),
        dt_micros > 0,
    ensures
        view.flung_times(dt_micros, ticks).valid(),
        view.flung_times(dt_micros, ticks).drag_delta.is_none(),
        magnitude(view.flung_times(dt_micros, ticks).velocity) <= magnitude(view.velocity),
        magnitude(view.flung_times(dt_micros, ticks).velocity) + ticks <= magnitude(view.velocity)
            || view.flung_times(dt_micros, ticks).velocity == 0,
        ticks >= magnitude(view.velocity) ==> view.flung_times(dt_micros, ticks).state()
            == ScrollState::Idle,
    decreases ticks,
{
    if ticks > 0 {
        lemma_fling_slows_down(view, dt_micros);
        lemma_fling_comes_to_rest(view.flung(dt_micros), dt_micros, (ticks - 1) as nat);
    }
}

/// A drag interrupts a fling: whatever the velocity, the view is dragging
/// after the first delta, the content has moved by that delta alone, and a
/// tick changes neither the view nor the content while the drag lasts.
pub proof fn lemma_drag_interrupts_fling(
    view: ViewState,
    content: ContentView,
    delta: i64,
    now: u64,
    dt_micros: int,
)
    requires
        view.state() == ScrollState::Flinging,
    ensures
        view.after_event(Interaction::Pressed, InputEvent::Drag(delta), now) == view.dragged(
            delta,
            now,
        ),
        view.dragged(delta, now).state() == ScrollState::Dragging,
        view.dragged(delta, now).velocity == view.velocity,
        view.event_content(content, Interaction::Pressed, InputEvent::Drag(delta), dt_micros)
            == content.scrolled_by(delta as int),
        view.dragged(delta, now).flung(dt_micros) == view.dragged(delta, now),
        view.dragged(delta, now).fling_content(content, dt_micros) == content,
{
}

/// Root of a scrolled region: configuration, velocity and the window of the
/// drag under way.
#[derive(Clone, Copy, Debug)]
pub struct ScrollView {
    scroll_speed: i64,
    friction: i64,
    stop_threshold: i64,
    velocity: i64,
    drag_delta: Option<DragDelta>,
}

impl View for ScrollView {
    type V = ViewState;

    closed spec fn view(&self) -> ViewState {
        ViewState {
            scroll_speed: self.scroll_speed as int,
            friction: self.friction as int,
            stop_threshold: self.stop_threshold as int,
            velocity: self.velocity as int,
            drag_delta: self.drag_delta,
        }
    }
}

impl ScrollView {
    /// Holds of every value that a program can hold.
    #[verifier::type_invariant]
    pub open spec fn well_formed(self) -> bool {
        self@.valid()
    }

    /// An idle view with the given speed of wheel scrolling, friction and
    /// stop threshold, each in thousandths.
    pub fn new(scroll_speed: i64, friction: i64, stop_threshold: i64) -> (view: ScrollView)
        requires
            friction > 0,
            stop_threshold > 0,
        ensures
            view@ == (ViewState {
                scroll_speed: scroll_speed as int,
                friction: friction as int,
                stop_threshold: stop_threshold as int,
                velocity: 0,
                drag_delta: None,
            }),
            view@.valid(),
            view@.state() == ScrollState::Idle,
    {
        ScrollView { scroll_speed, friction, stop_threshold, velocity: 0, drag_delta: None }
    }

    /// A view with the given configuration that carries on with the given
    /// velocity and window of a drag.
    pub fn resume(
        scroll_speed: i64,
        friction: i64,
        stop_threshold: i64,
        velocity: i64,
        drag_delta: Option<DragDelta>,
    ) -> (view: ScrollView)
        requires
            friction > 0,
            stop_threshold > 0,
        ensures
            view@ == (ViewState {
                scroll_speed: scroll_speed as int,
                friction: friction as int,
                stop_threshold: stop_threshold as int,
                velocity: velocity as int,
                drag_delta,
            }),
            view@.valid(),
    {
        ScrollView { scroll_speed, friction, stop_threshold, velocity, drag_delta }
    }

    /// The multiplier of wheel input counted in lines.
    pub fn scroll_speed(&self) -> (speed: i64)
        ensures
            speed == self@.scroll_speed,
    {
        self.scroll_speed
    }

    /// The friction coefficient.
    pub fn friction(&self) -> (friction: i64)
        ensures
            friction == self@.friction,
            friction > 0,
    {
        proof {
            use_type_invariant(self);
        }
        self.friction
    }

    /// The speed at or below which a fling stops.
    pub fn stop_threshold(&self) -> (threshold: i64)
        ensures
            threshold == self@.stop_threshold,
            threshold > 0,
    {
        proof {
            use_type_invariant(self);
        }
        self.stop_threshold
    }

    /// The current vertical velocity.
    pub fn velocity(&self) -> (velocity: i64)
        ensures
            velocity == self@.velocity,
    {
        self.velocity
    }

    /// The window of the drag under way, if there is one.
    pub fn drag_delta(&self) -> (window: Option<DragDelta>)
        ensures
            window == self@.drag_delta,
    {
        self.drag_delta
    }

    /// What the view is doing.
    pub fn state(&self) -> (state: ScrollState)
        ensures
            state == self@.state(),
    {
        if self.drag_delta.is_some() {
            ScrollState::Dragging
        } else if self.velocity != 0 {
            ScrollState::Flinging
        } else {
            ScrollState::Idle
        }
    }

    /// Sets the multiplier of wheel input; a negative one inverts the
    /// direction.
    pub fn set_scroll_speed(&mut self, scroll_speed: i64)
        ensures
            final(self)@ == (ViewState { scroll_speed: scroll_speed as int, ..old(self)@ }),
    {
        proof {
            use_type_invariant(&*self);
        }
        self.scroll_speed = scroll_speed;
    }

    /// Sets the friction coefficient.
    pub fn set_friction(&mut self, friction: i64)
        requires
            friction > 0,
        ensures
            final(self)@ == (ViewState { friction: friction as int, ..old(self)@ }),
    {
        proof {
            use_type_invariant(&*self);
        }
        self.friction = friction;
    }

    /// Takes a drag delta that arrived at `now` microseconds: the velocity
    /// estimate takes it up, and every content moves by it, within its
    /// bounds. It returns the velocity where one was committed.
    pub fn on_drag(&mut self, contents: &mut Vec<ScrollableContent>, delta: i64, now: u64) -> (committed:
        Option<i64>)
        ensures
            final(self)@ == old(self)@.dragged(delta, now),
            final(self)@.state() == ScrollState::Dragging,
            committed == committed_velocity(old(self)@.drag_delta, old(self)@.velocity, now),
            final(contents)@.len() == old(contents)@.len(),
            forall|i: int|
                0 <= i < old(contents)@.len() ==> (#[trigger] final(contents)@[i])@ == old(
                    contents,
                )@[i]@.scrolled_by(delta as int),
            forall|i: int|
                0 <= i < old(contents)@.len() && old(contents)@[i]@.in_bounds() ==> (
                #[trigger] final(contents)@[i])@.in_bounds(),
    {
        let committed: Option<i64> = self.track_drag(delta, now);
        scroll_all_by(contents, delta);
        committed
    }

    /// Takes a drag delta that arrived at `now` microseconds into the
    /// velocity estimate, and returns the velocity where one was committed.
    /// The first delta of a drag opens a window; a fling that was under way
    /// ends there.
    pub fn track_drag(&mut self, delta: i64, now: u64) -> (committed: Option<i64>)
        ensures
            final(self)@ == old(self)@.dragged(delta, now),
            final(self)@.state() == ScrollState::Dragging,
            committed == committed_velocity(old(self)@.drag_delta, old(self)@.velocity, now),
    {
        proof {
            use_type_invariant(&*self);
        }
        let (window, committed) = accumulate(self.drag_delta, self.velocity, delta, now);
        if let Some(velocity) = committed {
            self.velocity = velocity;
        }
        self.drag_delta = Some(window);
        committed
    }

    /// Ends the drag: the window is dropped without a last sample. A
    /// velocity above the stop threshold is kept and seeds a fling; any
    /// other is set to zero, and the view is idle.
    pub fn on_drag_end(&mut self)
        ensures
            final(self)@ == old(self)@.released(),
            final(self)@.state() == (if old(self)@.is_fast() {
                ScrollState::Flinging
            } else {
                ScrollState::Idle
            }),
    {
        proof {
            use_type_invariant(&*self);
        }
        self.drag_delta = None;
        if !self.is_fast() {
            self.velocity = 0;
        }
    }

    /// Tells whether the velocity is above the stop threshold.
    pub fn is_fast(&self) -> (fast: bool)
        ensures
            fast == self@.is_fast(),
    {
        proof {
            use_type_invariant(self);
        }
        self.velocity > self.stop_threshold || self.velocity < -self.stop_threshold
    }

    /// Advances a fling by a tick of `dt_micros` microseconds. While a drag
    /// is under way nothing happens. A velocity above the stop threshold
    /// moves every content, within its bounds, and decays; any other is set
    /// to zero.
    pub fn fling_update(&mut self, contents: &mut Vec<ScrollableContent>, dt_micros: u32)
        ensures
            final(self)@ == old(self)@.flung(dt_micros as int),
            final(contents)@.len() == old(contents)@.len(),
            forall|i: int|
                0 <= i < old(contents)@.len() ==> (#[trigger] final(contents)@[i])@ == old(
                    self,
                )@.fling_content(old(contents)@[i]@, dt_micros as int),
            forall|i: int|
                0 <= i < old(contents)@.len() && old(contents)@[i]@.in_bounds() ==> (
                #[trigger] final(contents)@[i])@.in_bounds(),
            forall|i: int|
                0 <= i < old(contents)@.len() && old(self)@.fling_is_felt(dt_micros as int)
                    ==> old(self)@.has_moved(
                    old(contents)@[i]@,
                    (#[trigger] final(contents)@[i])@,
                ),
    {
        if self.drag_delta.is_none() && self.is_fast() {
            let count: usize = contents.len();
            let mut i: usize = 0;
            while i < count
                invariant
                    i <= count,
                    contents@.len() == count,
                    old(contents)@.len() == count,
                    self@ == old(self)@,
                    forall|j: int|
                        0 <= j < i ==> (#[trigger] contents@[j])@ == self@.fling_content(
                            old(contents)@[j]@,
                            dt_micros as int,
                        ),
                    forall|j: int|
                        0 <= j < i && self@.fling_is_felt(dt_micros as int) ==> self@.has_moved(
                            old(contents)@[j]@,
                            (#[trigger] contents@[j])@,
                        ),
                    forall|j: int|
                        i <= j < count ==> (#[trigger] contents@[j]) == old(contents)@[j],
                decreases count - i,
            {
                let mut child: ScrollableContent = contents[i];
                self.fling_content(&mut child, dt_micros);
                contents.set(i, child);
                i += 1;
            }
        }
        self.fling_velocity(dt_micros);
    }

    /// Moves one content by the way that a fling travels in a tick of
    /// `dt_micros` microseconds, within the bounds of the content. The
    /// content stays where it is while a drag is under way, and where the
    /// velocity is not above the stop threshold. A way of less than a
    /// thousandth counts as a whole one, so a fling that has a thousandth
    /// to go moves every content that is not at the end already.
    pub fn fling_content(&self, content: &mut ScrollableContent, dt_micros: u32)
        ensures
            final(content)@ == self@.fling_content(old(content)@, dt_micros as int),
            final(content)@.in_bounds(),
            self@.fling_is_felt(dt_micros as int) ==> self@.has_moved(
                old(content)@,
                final(content)@,
            ),
    {
        proof {
            use_type_invariant(self);
            use_type_invariant(&*content);
            if self@.fling_is_felt(dt_micros as int) {
                lemma_fast_fling_moves(self@, content@, dt_micros as int);
            }
        }
        if self.drag_delta.is_none() && self.is_fast() {
            let (position, _) = calc_position_and_velocity(
                content.pos_y(),
                self.velocity,
                -self.friction,
                dt_micros,
            );
            content.set_pos_y(position);
        }
    }

    /// Lets the velocity decay over a tick of `dt_micros` microseconds.
    /// While a drag is under way nothing happens. A velocity above the stop
    /// threshold decays; any other is set to zero, and the view is idle.
    pub fn fling_velocity(&mut self, dt_micros: u32)
        ensures
            final(self)@ == old(self)@.flung(dt_micros as int),
    {
        proof {
            use_type_invariant(&*self);
        }
        if self.drag_delta.is_some() {
            return ;
        }
        if self.is_fast() {
            self.velocity = calc_position_and_velocity(
                0,
                self.velocity,
                -self.friction,
                dt_micros,
            ).1;
        } else {
            self.velocity = 0;
        }
    }

    /// Applies a wheel event to the contents of a hovered view: each moves
    /// by the delta of the event, within its bounds. Under a view that is not
    /// hovered the event is dropped. The view itself is never changed.
    pub fn scroll_events(
        &self,
        contents: &mut Vec<ScrollableContent>,
        interaction: Interaction,
        axis: i32,
        unit: ScrollUnit,
        dt_micros: u32,
    )
        ensures
            final(contents)@.len() == old(contents)@.len(),
            forall|i: int|
                0 <= i < old(contents)@.len() ==> (#[trigger] final(contents)@[i])@
                    == self@.wheel_content(
                    old(contents)@[i]@,
                    interaction,
                    axis as int,
                    unit,
                    dt_micros as int,
                ),
            forall|i: int|
                0 <= i < old(contents)@.len() && old(contents)@[i]@.in_bounds() ==> (
                #[trigger] final(contents)@[i])@.in_bounds(),
    {
        if interaction == Interaction::Hovered {
            let delta: i64 = wheel_delta(axis, unit, dt_micros, self.scroll_speed);
            scroll_all_by(contents, delta);
        }
    }

    /// Applies a wheel event to one content of the view: under a hovered
    /// view it moves by the delta of the event, within its bounds.
    pub fn wheel_content(
        &self,
        content: &mut ScrollableContent,
        interaction: Interaction,
        axis: i32,
        unit: ScrollUnit,
        dt_micros: u32,
    )
        ensures
            final(content)@ == self@.wheel_content(
                old(content)@,
                interaction,
                axis as int,
                unit,
                dt_micros as int,
            ),
            final(content)@.in_bounds(),
    {
        proof {
            use_type_invariant(&*content);
        }
        if interaction == Interaction::Hovered {
            let delta: i64 = wheel_delta(axis, unit, dt_micros, self.scroll_speed);
            content.scroll_by(delta);
        }
    }

    /// Hands an event to the view. An event that does not target the view,
    /// a drag on a view that is not pressed or a wheel event on one that is
    /// not hovered, is dropped. A drag goes to [`ScrollView::on_drag`], a
    /// wheel event to [`ScrollView::scroll_events`].
    pub fn handle_event(
        &mut self,
        contents: &mut Vec<ScrollableContent>,
        interaction: Interaction,
        event: InputEvent,
        now: u64,
        dt_micros: u32,
    )
        ensures
            final(self)@ == old(self)@.after_event(interaction, event, now),
            final(contents)@.len() == old(contents)@.len(),
            forall|i: int|
                0 <= i < old(contents)@.len() ==> (#[trigger] final(contents)@[i])@ == old(
                    self,
                )@.event_content(old(contents)@[i]@, interaction, event, dt_micros as int),
            forall|i: int|
                0 <= i < old(contents)@.len() && old(contents)@[i]@.in_bounds() ==> (
                #[trigger] final(contents)@[i])@.in_bounds(),
    {
        if !targets(interaction, event) {
            return ;
        }
        match event {
            InputEvent::Drag(delta) => {
                let _ = self.on_drag(contents, delta, now);
            },
            InputEvent::Wheel(axis, unit) => {
                self.scroll_events(contents, interaction, axis, unit, dt_micros);
            },
        }
    }
}

impl Default for ScrollView {
    /// Scroll speed 1200, friction 4.2 and stop threshold 1, idle.
    fn default() -> (view: ScrollView)
        ensures
            view@ == (ViewState {
                scroll_speed: 1_200_000,
                friction: 4_200,
                stop_threshold: 1_000,
                velocity: 0,
                drag_delta: None,
            }),
    {
        ScrollView::new(1_200_000, 4_200, 1_000)
    }
}

} // verus!
