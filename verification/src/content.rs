//! The scrolled content: its offset and the extent it may scroll over.

use vstd::prelude::*;
use crate::fixed::{clamp_int, saturate, saturating_narrow};

verus! {

/// The mathematical value of a [`ScrollableContent`].
pub struct ContentView {
    /// Offset of the content from the top of its viewport, never positive.
    pub pos_y: int,
    /// How far the content may move upward, never negative.
    pub max_scroll: int,
}

impl ContentView {
    /// The offset lies between `-max_scroll` and zero.
    pub open spec fn in_bounds(self) -> bool {
        &&& 0 <= self.max_scroll <= i64::MAX
        &&& -self.max_scroll <= self.pos_y <= 0
    }

    /// The content moved to the top.
    pub open spec fn at_top(self) -> ContentView {
        ContentView { pos_y: 0, max_scroll: self.max_scroll }
    }

    /// The content moved to the bottom.
    pub open spec fn at_bottom(self) -> ContentView {
        ContentView { pos_y: -self.max_scroll, max_scroll: self.max_scroll }
    }

    /// The content placed at `position`, brought back into its bounds.
    pub open spec fn placed_at(self, position: int) -> ContentView {
        ContentView {
            pos_y: clamp_int(position, -self.max_scroll, 0),
            max_scroll: self.max_scroll,
        }
    }

    /// The content moved by `value`, brought back into its bounds.
    pub open spec fn scrolled_by(self, value: int) -> ContentView {
        self.placed_at(self.pos_y + value)
    }

    /// The content after its extent changed to `max_scroll`: an offset that
    /// the new extent no longer allows moves to the new bottom.
    pub open spec fn resized(self, max_scroll: int) -> ContentView {
        ContentView { pos_y: clamp_int(self.pos_y, -max_scroll, 0), max_scroll }
    }
}

/// Wherever a content is moved, it ends between `-max_scroll` and zero.
pub proof fn lemma_moves_stay_in_bounds(content: ContentView, position: int, value: int)
    requires
        content.in_bounds(),
    ensures
        content.at_top().in_bounds(),
        content.at_bottom().in_bounds(),
        content.placed_at(position).in_bounds(),
        content.scrolled_by(value).in_bounds(),
{
}

/// A content whose extent changes is within the new extent at once: an
/// offset that the new extent still allows stays, any other moves to the
/// new bottom.
pub proof fn lemma_resize_stays_in_bounds(content: ContentView, max_scroll: int)
    requires
        content.in_bounds(),
        0 <= max_scroll <= i64::MAX,
    ensures
        content.resized(max_scroll).in_bounds(),
        content.resized(max_scroll).max_scroll == max_scroll,
        content.resized(max_scroll).pos_y == (if content.pos_y < -max_scroll {
            -max_scroll
        } else {
            content.pos_y
        }),
{
}

/// Scrolling to the top twice is scrolling to the top once, and so for the
/// bottom.
pub proof fn lemma_scroll_to_end_idempotent(content: ContentView)
    ensures
        content.at_top().at_top() == content.at_top(),
        content.at_bottom().at_bottom() == content.at_bottom(),
{
}

/// The extent over which content of height `content_height` scrolls inside
/// a viewport of height `viewport_height`.
pub open spec fn max_scroll_of(viewport_height: int, content_height: int) -> int {
    if content_height > viewport_height {
        content_height - viewport_height
    } else {
        0
    }
}

/// Computes the scroll extent from the two heights. The extent is never
/// negative; a difference beyond the `i64` range stops at `i64::MAX`.
pub fn max_scroll_for(viewport_height: i64, content_height: i64) -> (extent: i64)
    ensures
        extent == saturate(max_scroll_of(viewport_height as int, content_height as int)),
        extent >= 0,
{
    if content_height > viewport_height {
        saturating_narrow(content_height as i128 - viewport_height as i128)
    } else {
        0
    }
}

/// Offset of a scrolled content and the extent it may scroll over.
#[derive(Clone, Copy, Debug)]
pub struct ScrollableContent {
    pos_y: i64,
    max_scroll: i64,
}

impl View for ScrollableContent {
    type V = ContentView;

    closed spec fn view(&self) -> ContentView {
        ContentView { pos_y: self.pos_y as int, max_scroll: self.max_scroll as int }
    }
}

impl ScrollableContent {
    /// Holds of every value that a program can hold.
    #[verifier::type_invariant]
    pub open spec fn well_formed(self) -> bool {
        self@.in_bounds()
    }

    /// A content at the top with nothing to scroll over.
    pub fn new() -> (content: ScrollableContent)
        ensures
            content@ == (ContentView { pos_y: 0, max_scroll: 0 }),
            content@.in_bounds(),
    {
        ScrollableContent { pos_y: 0, max_scroll: 0 }
    }

    /// The current offset.
    pub fn pos_y(&self) -> (offset: i64)
        ensures
            offset == self@.pos_y,
            -self@.max_scroll <= offset <= 0,
    {
        proof {
            use_type_invariant(self);
        }
        self.pos_y
    }

    /// The current extent.
    pub fn max_scroll(&self) -> (extent: i64)
        ensures
            extent == self@.max_scroll,
            extent >= 0,
    {
        proof {
            use_type_invariant(self);
        }
        self.max_scroll
    }

    /// Scrolls to the top of the scroll view.
    pub fn scroll_to_top(&mut self)
        ensures
            final(self)@ == old(self)@.at_top(),
            final(self)@.in_bounds(),
    {
        proof {
            use_type_invariant(&*self);
        }
        self.pos_y = 0;
    }

    /// Scrolls to the bottom of the scroll view.
    pub fn scroll_to_bottom(&mut self)
        ensures
            final(self)@ == old(self)@.at_bottom(),
            final(self)@.in_bounds(),
    {
        proof {
            use_type_invariant(&*self);
        }
        self.pos_y = -self.max_scroll;
    }

    /// Scrolls by `value`: a positive value moves the content down, a
    /// negative one up. A value that would leave the bounds is cut off
    /// there, never refused.
    pub fn scroll_by(&mut self, value: i64)
        ensures
            final(self)@ == old(self)@.scrolled_by(value as int),
            final(self)@.in_bounds(),
    {
        let target: i128 = self.pos_y as i128 + value as i128;
        self.place(target);
    }

    /// Sets the offset to `position`, cut off at the bounds.
    pub fn set_pos_y(&mut self, position: i64)
        ensures
            final(self)@ == old(self)@.placed_at(position as int),
            final(self)@.in_bounds(),
    {
        self.place(position as i128);
    }

    fn place(&mut self, position: i128)
        ensures
            final(self)@ == old(self)@.placed_at(position as int),
            final(self)@.in_bounds(),
    {
        proof {
            use_type_invariant(&*self);
        }
        let lowest: i128 = -(self.max_scroll as i128);
        if position < lowest {
            self.pos_y = -self.max_scroll;
        } else if position > 0 {
            self.pos_y = 0;
        } else {
            self.pos_y = position as i64;
        }
    }

    /// Takes a new extent, as computed by [`max_scroll_for`]; a negative one
    /// counts as zero. An offset that the new extent no longer allows moves
    /// to the new bottom at once.
    pub fn set_max_scroll(&mut self, max_scroll: i64)
        ensures
            final(self)@ == old(self)@.resized(clamp_int(max_scroll as int, 0, i64::MAX as int)),
            final(self)@.in_bounds(),
    {
        proof {
            use_type_invariant(&*self);
        }
        let extent: i64 = if max_scroll < 0 { 0 } else { max_scroll };
        let offset: i64 = if self.pos_y < -extent { -extent } else { self.pos_y };
        *self = ScrollableContent { pos_y: offset, max_scroll: extent };
    }

    /// Recomputes the extent from the heights of the viewport and of the
    /// content, and brings the offset back into it.
    pub fn update_size(&mut self, viewport_height: i64, content_height: i64)
        ensures
            final(self)@ == old(self)@.resized(
                saturate(max_scroll_of(viewport_height as int, content_height as int)),
            ),
            final(self)@.in_bounds(),
    {
        let extent: i64 = max_scroll_for(viewport_height, content_height);
        self.set_max_scroll(extent);
    }
}

/// Scrolls every content of `contents` by `value`, each within its own
/// bounds.
pub fn scroll_all_by(contents: &mut Vec<ScrollableContent>, value: i64)
    ensures
        final(contents)@.len() == old(contents)@.len(),
        forall|i: int|
            0 <= i < old(contents)@.len() ==> (#[trigger] final(contents)@[i])@ == old(
                contents,
            )@[i]@.scrolled_by(value as int),
        forall|i: int|
            0 <= i < old(contents)@.len() ==> (#[trigger] final(contents)@[i])@.in_bounds(),
{
    let count: usize = contents.len();
    let mut i: usize = 0;
    while i < count
        invariant
            i <= count,
            contents@.len() == count,
            old(contents)@.len() == count,
            forall|j: int|
                0 <= j < i ==> (#[trigger] contents@[j])@ == old(contents)@[j]@.scrolled_by(
                    value as int,
                ),
            forall|j: int| 0 <= j < i ==> (#[trigger] contents@[j])@.in_bounds(),
            forall|j: int| i <= j < count ==> (#[trigger] contents@[j]) == old(contents)@[j],
        decreases count - i,
    {
        let mut child: ScrollableContent = contents[i];
        child.scroll_by(value);
        contents.set(i, child);
        i += 1;
    }
}

impl Default for ScrollableContent {
    fn default() -> (content: ScrollableContent)
        ensures
            content@ == (ContentView { pos_y: 0, max_scroll: 0 }),
    {
        ScrollableContent::new()
    }
}

} // verus!
