use bevy_simple_scroll_view::content::ScrollableContent;
use bevy_simple_scroll_view::input::{InputEvent, Interaction, ScrollUnit};
use bevy_simple_scroll_view::region::{ScrollRegion, Step};
use bevy_simple_scroll_view::view::{ScrollState, ScrollView};

fn region(viewport: i64, height: i64) -> ScrollRegion {
    let mut r = ScrollRegion::new(ScrollView::default(), ScrollableContent::new());
    r.step(Step::Resize { viewport_height: viewport, content_height: height });
    r
}

fn drag(delta: i64, now: u64) -> Step {
    Step::Input {
        interaction: Interaction::Pressed,
        event: InputEvent::Drag(delta),
        now,
        dt_micros: 16_000,
    }
}

fn wheel(axis: i32, unit: ScrollUnit, interaction: Interaction) -> Step {
    Step::Input { interaction, event: InputEvent::Wheel(axis, unit), now: 0, dt_micros: 100_000 }
}

#[test]
fn new_region_is_idle_at_top() {
    let r = ScrollRegion::new(ScrollView::default(), ScrollableContent::new());
    assert_eq!(r.offset(), 0);
    assert_eq!(r.state(), ScrollState::Idle);
    assert_eq!(r.content().max_scroll(), 0);
    assert_eq!(r.scroll_view().friction(), 4_200);
}

#[test]
fn resize_step_sets_the_extent() {
    let r = region(100_000, 300_000);
    assert_eq!(r.content().max_scroll(), 200_000);
    assert_eq!(r.offset(), 0);
}

#[test]
fn resize_step_brings_the_offset_back() {
    let mut r = region(100_000, 150_000);
    r.step(Step::ScrollToBottom);
    assert_eq!(r.offset(), -50_000);
    r.step(Step::Resize { viewport_height: 100_000, content_height: 120_000 });
    assert_eq!(r.content().max_scroll(), 20_000);
    assert_eq!(r.offset(), -20_000);
    r.step(Step::Tick { dt_micros: 16_000 });
    assert_eq!(r.offset(), -20_000);
}

#[test]
fn program_steps_move_the_content_only() {
    let mut r = region(100_000, 300_000);
    r.step(Step::ScrollBy(-30_000));
    assert_eq!(r.offset(), -30_000);
    r.step(Step::ScrollBy(-500_000));
    assert_eq!(r.offset(), -200_000);
    r.step(Step::ScrollToTop);
    assert_eq!(r.offset(), 0);
    r.step(Step::ScrollToBottom);
    assert_eq!(r.offset(), -200_000);
    r.step(Step::ScrollToBottom);
    assert_eq!(r.offset(), -200_000);
    assert_eq!(r.state(), ScrollState::Idle);
    assert_eq!(r.scroll_view().velocity(), 0);
}

#[test]
fn wheel_steps_need_a_hovered_view() {
    let mut r = region(100_000, 300_000);
    r.step(Step::ScrollBy(-150_000));
    r.step(wheel(1_000, ScrollUnit::Line, Interaction::Hovered));
    assert_eq!(r.offset(), -30_000);
    r.step(wheel(-10_000, ScrollUnit::Pixel, Interaction::Hovered));
    assert_eq!(r.offset(), -40_000);
    r.step(wheel(-10_000, ScrollUnit::Pixel, Interaction::Pressed));
    r.step(wheel(-10_000, ScrollUnit::Pixel, Interaction::Away));
    assert_eq!(r.offset(), -40_000);
    assert_eq!(r.state(), ScrollState::Idle);
}

#[test]
fn drag_steps_need_a_pressed_view() {
    let mut r = region(100_000, 300_000);
    r.step(Step::Input {
        interaction: Interaction::Hovered,
        event: InputEvent::Drag(-10_000),
        now: 0,
        dt_micros: 16_000,
    });
    assert_eq!(r.offset(), 0);
    assert_eq!(r.state(), ScrollState::Idle);
    r.step(drag(-10_000, 0));
    assert_eq!(r.offset(), -10_000);
    assert_eq!(r.state(), ScrollState::Dragging);
}

#[test]
fn region_drag_interrupts_fling() {
    let mut r = region(100_000, 300_000);
    r.run(&vec![drag(-40_000, 0), drag(600_000, 0), drag(0, 1_000_000), Step::DragEnd]);
    assert_eq!(r.state(), ScrollState::Flinging);
    assert_eq!(r.scroll_view().velocity(), 280_000);
    r.step(Step::ScrollBy(-100_000));
    assert_eq!(r.offset(), -100_000);
    r.step(drag(-7_000, 2_000_000));
    assert_eq!(r.state(), ScrollState::Dragging);
    assert_eq!(r.offset(), -107_000);
    r.step(Step::Tick { dt_micros: 16_000 });
    assert_eq!(r.state(), ScrollState::Dragging);
    assert_eq!(r.offset(), -107_000);
    assert_eq!(r.scroll_view().velocity(), 280_000);
}

#[test]
fn run_is_the_steps_in_order() {
    let steps = vec![
        drag(-50_000, 0),
        drag(-50_000, 1_000_000),
        Step::DragEnd,
        Step::Tick { dt_micros: 16_000 },
        wheel(-1_000, ScrollUnit::Pixel, Interaction::Hovered),
        Step::Tick { dt_micros: 16_000 },
    ];
    let mut all_at_once = region(100_000, 300_000);
    all_at_once.run(&steps);
    let mut one_by_one = region(100_000, 300_000);
    for step in steps {
        one_by_one.step(step);
    }
    assert_eq!(all_at_once.offset(), one_by_one.offset());
    assert_eq!(all_at_once.scroll_view().velocity(), one_by_one.scroll_view().velocity());
    assert_eq!(all_at_once.offset(), -101_749);
    assert_eq!(all_at_once.scroll_view().velocity(), -21_855);
    assert_eq!(all_at_once.state(), ScrollState::Flinging);
}

#[test]
fn run_of_no_steps_changes_nothing() {
    let mut r = region(100_000, 300_000);
    r.step(Step::ScrollBy(-30_000));
    r.run(&Vec::new());
    assert_eq!(r.offset(), -30_000);
    assert_eq!(r.state(), ScrollState::Idle);
}

#[test]
fn region_drag_then_fling_to_rest() {
    let mut r = region(100_000, 300_000);
    assert_eq!(r.content().max_scroll(), 200_000);
    r.run(&vec![drag(-50_000, 0), drag(-50_000, 1_000_000), Step::DragEnd]);
    assert_eq!(r.offset(), -100_000);
    assert_eq!(r.scroll_view().velocity(), -25_000);
    assert_eq!(r.state(), ScrollState::Flinging);
    let mut ticks = 0;
    while r.state() != ScrollState::Idle {
        let before = r.offset();
        r.step(Step::Tick { dt_micros: 16_000 });
        assert!(r.offset() <= before);
        assert!(r.offset() >= -200_000);
        ticks += 1;
        assert!(ticks <= 100);
    }
    assert_eq!(ticks, 49);
    assert_eq!(r.offset(), -105_737);
    assert_eq!(r.scroll_view().velocity(), 0);
}

#[test]
fn offset_stays_in_bounds_through_many_steps() {
    let mut r = region(100_000, 300_000);
    let mut seed: u64 = 12_345;
    let mut now: u64 = 0;
    for _ in 0..2_000 {
        seed = seed.wrapping_mul(6_364_136_223_846_793_005).wrapping_add(1_442_695_040_888_963_407);
        let pick = (seed >> 33) % 8;
        let amount = ((seed >> 20) % 400_001) as i64 - 200_000;
        now += (seed >> 50) % 40_000;
        let step = match pick {
            0 => drag(amount, now),
            1 => Step::DragEnd,
            2 => Step::Tick { dt_micros: 16_000 },
            3 => wheel((amount / 100) as i32, ScrollUnit::Line, Interaction::Hovered),
            4 => wheel((amount / 100) as i32, ScrollUnit::Pixel, Interaction::Hovered),
            5 => Step::ScrollBy(amount),
            6 => Step::Resize { viewport_height: 100_000, content_height: 100_000 + amount },
            _ => Step::Tick { dt_micros: 100_000 },
        };
        r.step(step);
        assert!(r.offset() <= 0);
        assert!(r.offset() >= -r.content().max_scroll());
        assert!(r.content().max_scroll() >= 0);
    }
}

#[test]
fn short_tick_moves_the_offset_of_a_region() {
    let mut r = region(100_000, 300_000);
    r.run(&vec![drag(-2_002, 0), drag(0, 1_000_000), Step::DragEnd]);
    assert_eq!(r.state(), ScrollState::Flinging);
    assert_eq!(r.scroll_view().velocity(), -1_001);
    assert_eq!(r.offset(), -2_002);
    r.step(Step::ScrollBy(-97_998));
    assert_eq!(r.offset(), -100_000);
    r.step(Step::Tick { dt_micros: 1_000 });
    assert_eq!(r.offset(), -100_001);
    assert_eq!(r.scroll_view().velocity(), -996);
}
