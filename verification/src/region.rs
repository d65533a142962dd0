//! A scrolled region: one view with one content, and the steps that change
//! them. Whatever steps are taken, in whatever order, the offset stays
//! between `-max_scroll` and zero.

use vstd::prelude::*;
use crate::content::{max_scroll_of, ContentView, ScrollableContent};
use crate::fixed::saturate;
use crate::input::{targets, InputEvent, Interaction};
use crate::view::{
    lemma_fast_fling_moves, lemma_fling_slows_down, ScrollState, ScrollView, ViewState,
};

verus! {

/// One thing that happens to a region.
#[derive(Clone, Copy, Debug)]
pub enum Step {
    /// The layout reports the heights of the viewport and of the content.
    Resize { viewport_height: i64, content_height: i64 },
    /// An input event arrives at `now` microseconds, during a tick of
    /// `dt_micros` microseconds, while the viewport is in the state
    /// `interaction`.
    Input { interaction: Interaction, event: InputEvent, now: u64, dt_micros: u32 },
    /// The drag ends.
    DragEnd,
    /// A tick of `dt_micros` microseconds passes.
    Tick { dt_micros: u32 },
    /// The program scrolls to the top.
    ScrollToTop,
    /// The program scrolls to the bottom.
    ScrollToBottom,
    /// The program scrolls by this much.
    ScrollBy(i64),
}

/// The mathematical value of a [`ScrollRegion`].
pub struct RegionState {
    /// The view of the region.
    pub view: ViewState,
    /// The content of the region.
    pub content: ContentView,
}

impl RegionState {
    /// The view is valid and the content within its bounds.
    pub open spec fn valid(self) -> bool {
        self.view.valid() && self.content.in_bounds()
    }

    /// The region with its view as it is and another content.
    pub open spec fn with_content(self, content: ContentView) -> RegionState {
        RegionState { view: self.view, content }
    }

    /// The region after one step. A new size changes the extent and brings
    /// the offset back into it. An event that targets the view moves the
    /// content by its delta, and a drag also feeds the velocity. A tick
    /// moves view and content by the fling only while no drag is under way.
    /// What the program asks for moves the content and leaves the view.
    pub open spec fn after(self, step: Step) -> RegionState {
        match step {
            Step::Resize { viewport_height, content_height } => self.with_content(
                self.content.resized(
                    saturate(max_scroll_of(viewport_height as int, content_height as int)),
                ),
            ),
            Step::Input { interaction, event, now, dt_micros } => RegionState {
                view: self.view.after_event(interaction, event, now),
                content: self.view.event_content(
                    self.content,
                    interaction,
                    event,
                    dt_micros as int,
                ),
            },
            Step::DragEnd => RegionState { view: self.view.released(), content: self.content },
            Step::Tick { dt_micros } => RegionState {
                view: self.view.flung(dt_micros as int),
                content: self.view.fling_content(self.content, dt_micros as int),
            },
            Step::ScrollToTop => self.with_content(self.content.at_top()),
            Step::ScrollToBottom => self.with_content(self.content.at_bottom()),
            Step::ScrollBy(value) => self.with_content(self.content.scrolled_by(value as int)),
        }
    }

    /// The region after the steps of `steps`, taken in order.
    pub open spec fn after_all(self, steps: Seq<Step>) -> RegionState
        decreases steps.len(),
    {
        if steps.len() == 0 {
            self
        } else {
            self.after_all(steps.drop_last()).after(steps.last())
        }
    }
}

/// A step leaves a valid region valid: the offset stays between
/// `-max_scroll` and zero, and friction and stop threshold stay positive.
pub proof fn lemma_step_keeps_bounds(region: RegionState, step: Step)
    requires
        region.valid(),
    ensures
        region.after(step).valid(),
{
    match step {
        Step::Tick { dt_micros } => {
            if region.view.drag_delta.is_none() {
                lemma_fling_slows_down(region.view, dt_micros as int);
            }
        },
        _ => {},
    }
}

/// A tick moves the offset of a region whose fling is felt, unless the
/// content is at the end that it moves toward.
pub proof fn lemma_tick_moves_offset(region: RegionState, dt_micros: u32)
    requires
        region.valid(),
        region.view.fling_is_felt(dt_micros as int),
    ensures
        region.view.has_moved(region.content, region.after(Step::Tick { dt_micros }).content),
        region.after(Step::Tick { dt_micros }).valid(),
{
    lemma_fast_fling_moves(region.view, region.content, dt_micros as int);
    lemma_step_keeps_bounds(region, Step::Tick { dt_micros });
}

/// After every sequence of steps the offset lies between `-max_scroll` and
/// zero.
pub proof fn lemma_steps_keep_bounds(region: RegionState, steps: Seq<Step>)
    requires
        region.valid(),
    ensures
        region.after_all(steps).valid(),
        -region.after_all(steps).content.max_scroll <= region.after_all(steps).content.pos_y
            <= 0,
    decreases steps.len(),
{
    if steps.len() > 0 {
        lemma_steps_keep_bounds(region, steps.drop_last());
        lemma_step_keeps_bounds(region.after_all(steps.drop_last()), steps.last());
    }
}

/// A view together with the content that it scrolls.
#[derive(Clone, Copy, Debug)]
pub struct ScrollRegion {
    view: ScrollView,
    content: ScrollableContent,
}

impl View for ScrollRegion {
    type V = RegionState;

    closed spec fn view(&self) -> RegionState {
        RegionState { view: self.view@, content: self.content@ }
    }
}

impl ScrollRegion {
    /// A region of the given view and content.
    pub fn new(view: ScrollView, content: ScrollableContent) -> (region: ScrollRegion)
        ensures
            region@ == (RegionState { view: view@, content: content@ }),
            region@.valid(),
    {
        proof {
            use_type_invariant(&view);
            use_type_invariant(&content);
        }
        ScrollRegion { view, content }
    }

    /// The view of the region.
    pub fn scroll_view(&self) -> (view: ScrollView)
        ensures
            view@ == self@.view,
    {
        self.view
    }

    /// The content of the region.
    pub fn content(&self) -> (content: ScrollableContent)
        ensures
            content@ == self@.content,
    {
        self.content
    }

    /// The offset of the content.
    pub fn offset(&self) -> (offset: i64)
        ensures
            offset == self@.content.pos_y,
            -self@.content.max_scroll <= offset <= 0,
    {
        self.content.pos_y()
    }

    /// What the view is doing.
    pub fn state(&self) -> (state: ScrollState)
        ensures
            state == self@.view.state(),
    {
        self.view.state()
    }

    /// Takes one step.
    pub fn step(&mut self, step: Step)
        ensures
            final(self)@ == old(self)@.after(step),
            final(self)@.valid(),
    {
        proof {
            use_type_invariant(&self.view);
            use_type_invariant(&self.content);
            lemma_step_keeps_bounds(self@, step);
        }
        match step {
            Step::Resize { viewport_height, content_height } => {
                self.content.update_size(viewport_height, content_height);
            },
            Step::Input { interaction, event, now, dt_micros } => {
                if targets(interaction, event) {
                    match event {
                        InputEvent::Drag(delta) => {
                            let _ = self.view.track_drag(delta, now);
                            self.content.scroll_by(delta);
                        },
                        InputEvent::Wheel(axis, unit) => {
                            self.view.wheel_content(
                                &mut self.content,
                                interaction,
                                axis,
                                unit,
                                dt_micros,
                            );
                        },
                    }
                }
            },
            Step::DragEnd => {
                self.view.on_drag_end();
            },
            Step::Tick { dt_micros } => {
                self.view.fling_content(&mut self.content, dt_micros);
                self.view.fling_velocity(dt_micros);
            },
            Step::ScrollToTop => {
                self.content.scroll_to_top();
            },
            Step::ScrollToBottom => {
                self.content.scroll_to_bottom();
            },
            Step::ScrollBy(value) => {
                self.content.scroll_by(value);
            },
        }
    }

    /// Takes the steps of `steps` in order.
    pub fn run(&mut self, steps: &Vec<Step>)
        ensures
            final(self)@ == old(self)@.after_all(steps@),
            final(self)@.valid(),
    {
        proof {
            use_type_invariant(&self.view);
            use_type_invariant(&self.content);
        }
        let count: usize = steps.len();
        let mut i: usize = 0;
        while i < count
            invariant
                i <= count,
                count == steps@.len(),
                self@ == old(self)@.after_all(steps@.take(i as int)),
                self@.valid(),
            decreases count - i,
        {
            assert(steps@.take(i + 1).drop_last() == steps@.take(i as int));
            self.step(steps[i]);
            i += 1;
        }
        assert(steps@.take(count as int) == steps@);
    }
}

} // verus!
