use bevy_simple_scroll_view::content::ScrollableContent;
use bevy_simple_scroll_view::input::{InputEvent, Interaction, ScrollUnit};
use bevy_simple_scroll_view::velocity::DragDelta;
use bevy_simple_scroll_view::view::{ScrollState, ScrollView};

fn content(viewport: i64, height: i64, offset: i64) -> ScrollableContent {
    let mut c = ScrollableContent::new();
    c.update_size(viewport, height);
    c.set_pos_y(offset);
    c
}

/// A view that is flinging with the given velocity.
fn flinging(velocity: i64) -> ScrollView {
    let mut view = ScrollView::default();
    let mut none: Vec<ScrollableContent> = Vec::new();
    view.on_drag(&mut none, 0, 0);
    view.on_drag(&mut none, velocity * 2, 0);
    view.on_drag(&mut none, 0, 1_000_000);
    view.on_drag_end();
    assert_eq!(view.velocity(), velocity);
    assert_eq!(view.state(), ScrollState::Flinging);
    view
}

#[test]
fn default_view() {
    let view = ScrollView::default();
    assert_eq!(view.scroll_speed(), 1_200_000);
    assert_eq!(view.friction(), 4_200);
    assert_eq!(view.stop_threshold(), 1_000);
    assert_eq!(view.velocity(), 0);
    assert_eq!(view.drag_delta(), None);
    assert_eq!(view.state(), ScrollState::Idle);
    assert!(!view.is_fast());
}

#[test]
fn new_view_and_setters() {
    let mut view = ScrollView::new(-500_000, 4_000, 16_000);
    assert_eq!(view.scroll_speed(), -500_000);
    assert_eq!(view.friction(), 4_000);
    assert_eq!(view.stop_threshold(), 16_000);
    assert_eq!(view.state(), ScrollState::Idle);
    view.set_scroll_speed(800_000);
    view.set_friction(1);
    assert_eq!(view.scroll_speed(), 800_000);
    assert_eq!(view.friction(), 1);
    assert_eq!(view.stop_threshold(), 16_000);
    assert_eq!(view.velocity(), 0);
}

#[test]
fn drag_start_opens_a_window_and_moves_the_content() {
    let mut view = ScrollView::default();
    let mut all = vec![content(100_000, 300_000, 0)];
    let committed = view.on_drag(&mut all, -50_000, 2_000_000);
    assert_eq!(committed, None);
    assert_eq!(view.state(), ScrollState::Dragging);
    assert_eq!(view.drag_delta(), Some(DragDelta { diff: -50_000, time: 2_000_000 }));
    assert_eq!(view.velocity(), 0);
    assert_eq!(all[0].pos_y(), -50_000);
}

#[test]
fn drag_in_the_same_instant_defers_the_commit() {
    let mut view = ScrollView::default();
    let mut all = vec![content(100_000, 300_000, 0)];
    view.on_drag(&mut all, -50_000, 2_000_000);
    let committed = view.on_drag(&mut all, -30_000, 2_000_000);
    assert_eq!(committed, None);
    assert_eq!(view.drag_delta(), Some(DragDelta { diff: -80_000, time: 2_000_000 }));
    assert_eq!(view.velocity(), 0);
    assert_eq!(all[0].pos_y(), -80_000);
    let committed = view.on_drag(&mut all, -10_000, 1_000_000);
    assert_eq!(committed, None);
    assert_eq!(view.drag_delta(), Some(DragDelta { diff: -90_000, time: 2_000_000 }));
    assert_eq!(all[0].pos_y(), -90_000);
}

#[test]
fn drag_moves_every_content_within_its_bounds() {
    let mut view = ScrollView::default();
    let mut all = vec![content(100_000, 300_000, 0), content(100_000, 120_000, 0)];
    view.on_drag(&mut all, -50_000, 0);
    assert_eq!(all[0].pos_y(), -50_000);
    assert_eq!(all[1].pos_y(), -20_000);
    view.on_drag(&mut all, 70_000, 0);
    assert_eq!(all[0].pos_y(), 0);
    assert_eq!(all[1].pos_y(), 0);
}

#[test]
fn drag_end_below_the_threshold_goes_idle() {
    let mut view = ScrollView::default();
    let mut all = vec![content(100_000, 300_000, 0)];
    view.on_drag(&mut all, -2_000, 0);
    let committed = view.on_drag(&mut all, 0, 1_000_000);
    assert_eq!(committed, Some(-1_000));
    view.on_drag_end();
    assert_eq!(view.state(), ScrollState::Idle);
    assert_eq!(view.velocity(), 0);
    assert_eq!(view.drag_delta(), None);
}

#[test]
fn drag_end_above_the_threshold_starts_a_fling() {
    let mut view = ScrollView::default();
    let mut all = vec![content(100_000, 300_000, 0)];
    view.on_drag(&mut all, -2_002, 0);
    let committed = view.on_drag(&mut all, 0, 1_000_000);
    assert_eq!(committed, Some(-1_001));
    assert!(view.is_fast());
    view.on_drag_end();
    assert_eq!(view.state(), ScrollState::Flinging);
    assert_eq!(view.velocity(), -1_001);
    assert_eq!(view.drag_delta(), None);
}

#[test]
fn drag_end_takes_no_last_sample() {
    let mut view = ScrollView::default();
    let mut all = vec![content(100_000, 300_000, 0)];
    view.on_drag(&mut all, -90_000, 0);
    view.on_drag_end();
    assert_eq!(view.velocity(), 0);
    assert_eq!(view.state(), ScrollState::Idle);
    assert_eq!(all[0].pos_y(), -90_000);
}

#[test]
fn fling_tick_moves_the_content_and_decays() {
    let mut view = flinging(300_000);
    let mut all = vec![content(100_000, 300_000, -100_000)];
    view.fling_update(&mut all, 100_000);
    assert_eq!(view.velocity(), 197_114);
    assert_eq!(all[0].pos_y(), -75_503);
    assert_eq!(view.state(), ScrollState::Flinging);
}

#[test]
fn fling_is_cut_off_at_the_bounds() {
    let mut view = flinging(300_000);
    let mut all = vec![content(100_000, 300_000, -10_000), content(100_000, 300_000, -200_000)];
    view.fling_update(&mut all, 100_000);
    assert_eq!(all[0].pos_y(), 0);
    assert_eq!(all[1].pos_y(), -175_503);
    let mut down = flinging(-300_000);
    let mut low = vec![content(100_000, 300_000, -190_000)];
    down.fling_update(&mut low, 100_000);
    assert_eq!(low[0].pos_y(), -200_000);
    assert_eq!(down.velocity(), -197_114);
}

#[test]
fn slow_fling_stops_and_leaves_the_content() {
    let mut all = vec![content(100_000, 300_000, -100_000)];
    let mut view = flinging(1_500);
    view.fling_update(&mut all, 1_000_000);
    assert_eq!(view.velocity(), 22);
    assert_eq!(view.state(), ScrollState::Flinging);
    assert_eq!(all[0].pos_y(), -99_648);
    view.fling_update(&mut all, 1_000_000);
    assert_eq!(view.velocity(), 0);
    assert_eq!(view.state(), ScrollState::Idle);
    assert_eq!(all[0].pos_y(), -99_648);
}

#[test]
fn tick_at_rest_changes_nothing() {
    let mut view = ScrollView::default();
    let mut all = vec![content(100_000, 300_000, -100_000)];
    view.fling_update(&mut all, 16_000);
    assert_eq!(view.state(), ScrollState::Idle);
    assert_eq!(view.velocity(), 0);
    assert_eq!(all[0].pos_y(), -100_000);
}

#[test]
fn tick_while_dragging_changes_nothing() {
    let mut view = flinging(300_000);
    let mut all = vec![content(100_000, 300_000, -100_000)];
    view.on_drag(&mut all, 0, 5_000_000);
    view.fling_update(&mut all, 100_000);
    assert_eq!(view.velocity(), 300_000);
    assert_eq!(view.state(), ScrollState::Dragging);
    assert_eq!(all[0].pos_y(), -100_000);
}

#[test]
fn drag_interrupts_fling() {
    let mut view = flinging(300_000);
    let mut all = vec![content(100_000, 300_000, -100_000)];
    view.handle_event(&mut all, Interaction::Pressed, InputEvent::Drag(-7_000), 5_000_000, 16_000);
    assert_eq!(view.state(), ScrollState::Dragging);
    assert_eq!(all[0].pos_y(), -107_000);
    view.fling_update(&mut all, 16_000);
    assert_eq!(view.state(), ScrollState::Dragging);
    assert_eq!(all[0].pos_y(), -107_000);
    assert_eq!(view.drag_delta(), Some(DragDelta { diff: -7_000, time: 5_000_000 }));
}

#[test]
fn wheel_moves_the_content_of_a_hovered_view() {
    let view = ScrollView::default();
    let mut all = vec![content(100_000, 300_000, -150_000)];
    view.scroll_events(&mut all, Interaction::Hovered, 1_000, ScrollUnit::Line, 100_000);
    assert_eq!(all[0].pos_y(), -30_000);
    view.scroll_events(&mut all, Interaction::Hovered, -10_000, ScrollUnit::Pixel, 100_000);
    assert_eq!(all[0].pos_y(), -40_000);
    view.scroll_events(&mut all, Interaction::Hovered, 1_000, ScrollUnit::Line, 100_000);
    assert_eq!(all[0].pos_y(), 0);
}

#[test]
fn wheel_is_dropped_unless_hovered() {
    let view = ScrollView::default();
    let mut all = vec![content(100_000, 300_000, -150_000)];
    view.scroll_events(&mut all, Interaction::Away, 1_000, ScrollUnit::Line, 100_000);
    view.scroll_events(&mut all, Interaction::Pressed, 1_000, ScrollUnit::Pixel, 100_000);
    assert_eq!(all[0].pos_y(), -150_000);
}

#[test]
fn wheel_leaves_velocity_and_state() {
    let mut view = flinging(300_000);
    let mut all = vec![content(100_000, 300_000, -150_000)];
    let wheel = InputEvent::Wheel(-5_000, ScrollUnit::Pixel);
    view.handle_event(&mut all, Interaction::Hovered, wheel, 9_000_000, 16_000);
    assert_eq!(all[0].pos_y(), -155_000);
    assert_eq!(view.velocity(), 300_000);
    assert_eq!(view.state(), ScrollState::Flinging);
    view.on_drag(&mut all, 0, 9_000_000);
    view.handle_event(&mut all, Interaction::Hovered, wheel, 9_000_000, 16_000);
    assert_eq!(all[0].pos_y(), -160_000);
    assert_eq!(view.state(), ScrollState::Dragging);
    assert_eq!(view.drag_delta(), Some(DragDelta { diff: 0, time: 9_000_000 }));
}

#[test]
fn events_for_other_targets_are_dropped() {
    let mut view = ScrollView::default();
    let mut all = vec![content(100_000, 300_000, -150_000)];
    view.handle_event(&mut all, Interaction::Hovered, InputEvent::Drag(-7_000), 0, 16_000);
    view.handle_event(&mut all, Interaction::Away, InputEvent::Drag(-7_000), 0, 16_000);
    let wheel = InputEvent::Wheel(-5_000, ScrollUnit::Pixel);
    view.handle_event(&mut all, Interaction::Pressed, wheel, 0, 16_000);
    view.handle_event(&mut all, Interaction::Away, wheel, 0, 16_000);
    assert_eq!(all[0].pos_y(), -150_000);
    assert_eq!(view.state(), ScrollState::Idle);
    assert_eq!(view.drag_delta(), None);
}

#[test]
fn inverted_scroll_speed() {
    let mut view = ScrollView::default();
    view.set_scroll_speed(-1_200_000);
    let mut all = vec![content(100_000, 300_000, -150_000)];
    view.scroll_events(&mut all, Interaction::Hovered, 1_000, ScrollUnit::Line, 100_000);
    assert_eq!(all[0].pos_y(), -200_000);
}

#[test]
fn programmatic_scrolling_leaves_the_view() {
    let mut view = flinging(300_000);
    let mut all = vec![content(100_000, 300_000, -150_000)];
    all[0].scroll_to_bottom();
    assert_eq!(all[0].pos_y(), -200_000);
    all[0].scroll_by(30_000);
    assert_eq!(all[0].pos_y(), -170_000);
    all[0].scroll_to_top();
    assert_eq!(view.velocity(), 300_000);
    assert_eq!(view.state(), ScrollState::Flinging);
    view.fling_update(&mut all, 100_000);
    assert_eq!(all[0].pos_y(), 0);
}

#[test]
fn drag_then_fling_to_rest() {
    let mut view = ScrollView::default();
    let mut c = ScrollableContent::new();
    c.update_size(100_000, 300_000);
    assert_eq!(c.max_scroll(), 200_000);
    let mut all = vec![c];
    let drag = InputEvent::Drag(-50_000);
    view.handle_event(&mut all, Interaction::Pressed, drag, 0, 16_000);
    view.handle_event(&mut all, Interaction::Pressed, drag, 1_000_000, 16_000);
    assert_eq!(all[0].pos_y(), -100_000);
    assert_eq!(view.velocity(), -25_000);
    view.on_drag_end();
    assert_eq!(view.state(), ScrollState::Flinging);
    let mut ticks = 0;
    while view.state() != ScrollState::Idle {
        let before_offset = all[0].pos_y();
        let before_speed = view.velocity().abs();
        view.fling_update(&mut all, 16_000);
        assert!(all[0].pos_y() <= before_offset);
        assert!(all[0].pos_y() >= -200_000);
        assert!(view.velocity().abs() < before_speed);
        ticks += 1;
        assert!(ticks <= 100);
    }
    assert_eq!(ticks, 49);
    assert_eq!(view.velocity(), 0);
    assert_eq!(all[0].pos_y(), -105_737);
}

#[test]
fn hard_fling_ends_at_the_bottom() {
    let mut view = flinging(-3_000_000);
    let mut all = vec![content(100_000, 300_000, -100_000)];
    let mut ticks = 0;
    while view.state() != ScrollState::Idle {
        view.fling_update(&mut all, 16_000);
        assert!(all[0].pos_y() >= -200_000 && all[0].pos_y() <= 0);
        ticks += 1;
        assert!(ticks <= 200);
    }
    assert_eq!(all[0].pos_y(), -200_000);
    assert_eq!(view.velocity(), 0);
}

#[test]
fn short_tick_of_a_fling_near_the_threshold_moves_the_content() {
    let mut view = flinging(-1_001);
    let mut all = vec![content(100_000, 300_000, -100_000), content(100_000, 300_000, -200_000)];
    view.fling_update(&mut all, 1_000);
    assert_eq!(all[0].pos_y(), -100_001);
    assert_eq!(all[1].pos_y(), -200_000);
    assert_eq!(view.velocity(), -996);
    assert_eq!(view.state(), ScrollState::Flinging);
    let mut up = flinging(1_001);
    let mut high = vec![content(100_000, 300_000, -100_000), content(100_000, 300_000, 0)];
    up.fling_update(&mut high, 1_000);
    assert_eq!(high[0].pos_y(), -99_999);
    assert_eq!(high[1].pos_y(), 0);
    assert_eq!(up.velocity(), 996);
}

#[test]
fn every_tick_of_a_fast_fling_moves_the_content() {
    let mut view = flinging(-50_000);
    let mut all = vec![content(100_000, 300_000, -100_000)];
    let mut ticks = 0;
    while view.is_fast() {
        let before = all[0].pos_y();
        view.fling_update(&mut all, 1_000);
        assert!(all[0].pos_y() < before);
        ticks += 1;
        assert!(ticks < 2_000);
    }
    assert_eq!(ticks, 906);
    view.fling_update(&mut all, 1_000);
    assert_eq!(view.state(), ScrollState::Idle);
}

#[test]
fn fling_rests_within_the_ticks_of_its_decay() {
    let mut view = flinging(-50_000);
    let mut all = vec![content(100_000, 300_000, -100_000)];
    let mut ticks = 0;
    while view.state() != ScrollState::Idle {
        view.fling_update(&mut all, 16_667);
        ticks += 1;
        assert!(ticks <= 57);
    }
    assert_eq!(ticks, 57);
    view.fling_update(&mut all, 16_667);
    assert_eq!(view.velocity(), 0);
    assert_eq!(view.state(), ScrollState::Idle);
}
