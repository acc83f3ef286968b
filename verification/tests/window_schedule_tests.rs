use germinal_infra::ids::RenderTargetId;
use germinal_infra::render_surface::{RenderSurfaceCursorShape, RenderSurfaceCursorSnapshot};
use germinal_infra::window_schedule::{
    cursor_line_feed_joins_motion, cursor_motion_start, cursor_motion_waits_for_line_feed, ime_cursor_area,
    is_enter_cursor_motion, render_target_is_visible, PaneGrid, RenderSurfacePlacement,
    WgpuRenderSchedule,
};

fn cursor(x: u32, y: u32) -> RenderSurfaceCursorSnapshot {
    RenderSurfaceCursorSnapshot { x, y, focused: true, shape: RenderSurfaceCursorShape::Block, blinking: false }
}

#[test]
fn render_target_visibility_follows_workspace_layout() {
    let visible_target = RenderTargetId::new(1);
    let hidden_target = RenderTargetId::new(2);
    let placements = [RenderSurfacePlacement::new(visible_target, 0, 0, 640, 480)];

    assert!(render_target_is_visible(&placements, visible_target));
    assert!(!render_target_is_visible(&placements, hidden_target));
}

#[test]
fn input_and_enter_cursor_motions_are_classified_independently() {
    assert!(!is_enter_cursor_motion(cursor(4, 2), cursor(5, 2)));
    assert!(!is_enter_cursor_motion(cursor(5, 2), cursor(4, 2)));
    assert!(is_enter_cursor_motion(cursor(4, 2), cursor(0, 2)));
    assert!(is_enter_cursor_motion(cursor(0, 2), cursor(0, 3)));
    assert!(is_enter_cursor_motion(cursor(4, 2), cursor(0, 3)));
}

#[test]
fn ime_cursor_area_tracks_wrapped_preedit_in_a_partial_height_pane() {
    let target_id = RenderTargetId::new(9);
    let placement = RenderSurfacePlacement::new(target_id, 400, 20, 32, 35);
    // A 32 by 35 pane of 8 by 16 cells: four columns, two rows sharing 35 pixels.
    let grid = PaneGrid {
        origin_x_px: 0,
        origin_y_px: 0,
        cell_width_px: 8,
        columns: 4,
        rows: 2,
        content_height_px: 35,
    };
    // "你" composed at column 3 wraps to the next line; the cursor follows it.
    assert_eq!(
        ime_cursor_area(placement, grid, Some(cursor(3, 0)), Some((2, 1))),
        Some(((416, 37), (8, 18)))
    );
}

#[test]
fn ime_cursor_area_needs_a_cursor_and_otherwise_uses_its_cell() {
    let placement = RenderSurfacePlacement::new(RenderTargetId::new(1), 10, 5, 80, 48);
    let grid = PaneGrid {
        origin_x_px: 2,
        origin_y_px: 3,
        cell_width_px: 8,
        columns: 10,
        rows: 3,
        content_height_px: 48,
    };
    assert_eq!(ime_cursor_area(placement, grid, None, Some((1, 1))), None);
    assert_eq!(ime_cursor_area(placement, grid, Some(cursor(4, 2)), None), Some(((44, 40), (8, 16))));
}

fn schedule() -> WgpuRenderSchedule {
    WgpuRenderSchedule {
        window_occluded: false,
        needs_redraw: false,
        next_present_at: 100,
        next_cursor_blink_at: None,
        next_cursor_motion_frame_at: None,
        next_background_frame_at: None,
        frame_interval: 16,
        cursor_blink_interval: 500,
    }
}

#[test]
fn the_next_deadline_is_the_earliest_pending_one() {
    let mut s = schedule();
    assert_eq!(s.next_render_deadline(), None);
    s.next_cursor_blink_at = Some(300);
    s.next_background_frame_at = Some(250);
    assert_eq!(s.next_render_deadline(), Some(250));
    s.schedule_redraw();
    assert_eq!(s.next_render_deadline(), Some(100));
    s.window_occluded = true;
    assert_eq!(s.next_render_deadline(), None);
}

#[test]
fn due_deadlines_move_one_interval_past_now() {
    let mut s = schedule();
    s.next_cursor_blink_at = Some(300);
    s.next_background_frame_at = Some(250);
    assert!(!s.take_due_render_deadline(200));
    assert!(s.take_due_render_deadline(260));
    assert_eq!(s.next_background_frame_at, Some(276));
    assert_eq!(s.next_cursor_blink_at, Some(300));
    assert!(s.take_due_render_deadline(300));
    assert_eq!(s.next_cursor_blink_at, Some(800));
    assert_eq!(s.next_background_frame_at, Some(316));
}

#[test]
fn redraw_requests_wait_for_the_next_present_time() {
    let mut s = schedule();
    assert!(!s.take_redraw_request(200));
    s.schedule_redraw();
    assert!(!s.take_redraw_request(99));
    assert!(s.take_redraw_request(100));
    assert!(!s.needs_redraw);
    assert!(!s.take_redraw_request(200));
}

#[test]
fn showing_a_hidden_window_restarts_its_frames() {
    let mut s = schedule();
    s.next_background_frame_at = Some(250);
    s.set_window_occluded(true, 300, true, true);
    assert!(s.window_occluded);
    assert_eq!(s.next_background_frame_at, None);
    assert!(!s.take_due_render_deadline(1000));
    s.set_window_occluded(false, 400, true, false);
    assert!(!s.window_occluded);
    assert!(s.needs_redraw);
    assert_eq!(s.next_present_at, 400);
    assert_eq!(s.next_background_frame_at, Some(400));
    assert_eq!(s.next_cursor_motion_frame_at, None);
    assert_eq!(s.next_render_deadline(), Some(400));
}

#[test]
fn a_carriage_return_waits_for_a_line_feed_to_join_it() {
    // A carriage return alone waits, one frame at most 8 ms, for a line feed.
    assert!(cursor_motion_waits_for_line_feed(cursor(5, 2), cursor(0, 2)));
    assert!(!cursor_motion_waits_for_line_feed(cursor(5, 2), cursor(0, 3)));
    assert!(!cursor_motion_waits_for_line_feed(cursor(0, 2), cursor(0, 2)));
    assert_eq!(cursor_motion_start(1_000, 16_666_666, true), 8_001_000);
    assert_eq!(cursor_motion_start(1_000, 4_000_000, true), 4_001_000);
    assert_eq!(cursor_motion_start(1_000, 16_666_666, false), 1_000);
    // The line feed joins the waiting motion until it starts.
    let started_at = cursor_motion_start(1_000, 16_666_666, true);
    assert!(cursor_line_feed_joins_motion(true, started_at, cursor(0, 2), cursor(0, 3), started_at));
    assert!(!cursor_line_feed_joins_motion(true, started_at, cursor(0, 2), cursor(0, 3), started_at + 1));
    assert!(!cursor_line_feed_joins_motion(false, started_at, cursor(0, 2), cursor(0, 3), 2_000));
    assert!(!cursor_line_feed_joins_motion(true, started_at, cursor(0, 2), cursor(4, 3), 2_000));
}
