use germinal_infra::colors::{RgbColorDto, TextStyleDto};
use germinal_infra::ids::{RenderTargetId, SeqNo};
use germinal_infra::quad_plan::{build_quad_indices, RgbaColorDto, WgpuQuadVertexBufferBuilder};
use germinal_infra::snapshot_frame_plan::{BuiltFramePlan, RenderCommandDto};
use germinal_infra::text_surface::{TextSurfaceFramePlanPresenter, TextSurfaceRow, TextSurfaceRun, PIXEL_RECT_ROW_BASE};

fn text_frame(target_id: RenderTargetId, seq: u64, text: &str) -> BuiltFramePlan {
    BuiltFramePlan {
        target_id,
        seq: SeqNo::new(seq),
        commands: vec![RenderCommandDto::Clear, RenderCommandDto::TextRun { x: 0, y: 0, text: text.to_string() }],
    }
}

fn frame(target_id: RenderTargetId, seq: u64, commands: Vec<RenderCommandDto>) -> BuiltFramePlan {
    BuiltFramePlan { target_id, seq: SeqNo::new(seq), commands }
}

fn run(x: u32, y: u32, text: &str) -> RenderCommandDto {
    RenderCommandDto::TextRun { x, y, text: text.to_string() }
}

#[test]
fn rejects_duplicate_and_stale_frames_without_rolling_back_surface() {
    let mut presenter = TextSurfaceFramePlanPresenter::new();
    let target_id = RenderTargetId::new(7);

    assert!(presenter.present(&text_frame(target_id, 2, "new"), &[]));
    assert!(!presenter.present(&text_frame(target_id, 2, "duplicate"), &[]));
    assert!(!presenter.present(&text_frame(target_id, 1, "stale"), &[]));

    let surface = presenter.surface_of(target_id).expect("surface should remain available");
    assert_eq!(surface.latest_seq, SeqNo::new(2));
    assert_eq!(surface.text_at(0).as_deref(), Some("new"));
}

#[test]
fn sequence_order_is_tracked_independently_per_target() {
    let mut presenter = TextSurfaceFramePlanPresenter::new();
    let first_target = RenderTargetId::new(1);
    let second_target = RenderTargetId::new(2);

    assert!(presenter.present(&text_frame(first_target, 3, "first"), &[]));
    assert!(presenter.present(&text_frame(second_target, 1, "second"), &[]));

    assert_eq!(presenter.surface_of(first_target).unwrap().latest_seq, SeqNo::new(3));
    assert_eq!(presenter.surface_of(second_target).unwrap().latest_seq, SeqNo::new(1));
}

#[test]
fn unknown_targets_have_no_surface() {
    let presenter = TextSurfaceFramePlanPresenter::new();
    assert!(presenter.surface_of(RenderTargetId::new(3)).is_none());
    assert!(presenter.surface_snapshot_of(RenderTargetId::new(3), &[]).is_none());
}

#[test]
fn a_cleared_frame_replaces_rows_whole_and_damages_everything() {
    let mut presenter = TextSurfaceFramePlanPresenter::new();
    let target = RenderTargetId::new(1);
    assert!(presenter.present(
        &frame(target, 1, vec![RenderCommandDto::Clear, run(6, 2, "world"), run(0, 2, "hello"), run(0, 0, "top")]),
        &[]
    ));
    let surface = presenter.surface_of(target).unwrap();
    assert_eq!(surface.line_texts(), vec!["top".to_string(), "hello world".to_string()]);
    let xs: Vec<u32> = surface.row_runs(2).unwrap().iter().map(|run| run.x).collect();
    assert_eq!(xs, vec![0, 6]);
    assert!(surface.latest_dirty_rows.is_empty());
    assert!(surface.row_runs(1).is_none());
}

#[test]
fn cleared_rows_keep_every_staged_run_and_report_the_rows_changed() {
    let mut presenter = TextSurfaceFramePlanPresenter::new();
    let target = RenderTargetId::new(1);
    assert!(presenter.present(&frame(target, 1, vec![RenderCommandDto::Clear, run(0, 0, "keep"), run(0, 4, "old")]), &[]));
    assert!(presenter.present(
        &frame(
            target,
            2,
            vec![
                RenderCommandDto::ClearLine { y: 4 },
                run(0, 4, "abcdef"),
                run(2, 4, "XY"),
                RenderCommandDto::ClearLine { y: 3 },
            ]
        ),
        &[]
    ));
    let surface = presenter.surface_of(target).unwrap();
    // Both runs stay on the row, and the later one is written over the first.
    assert_eq!(surface.row_runs(4).unwrap().len(), 2);
    assert_eq!(surface.text_at(4).as_deref(), Some("abXYef"));
    assert_eq!(surface.text_at(0).as_deref(), Some("keep"));
    assert_eq!(surface.text_at(3), None);
    assert_eq!(surface.latest_dirty_rows, vec![3, 4]);
}

#[test]
fn runs_on_rows_not_cleared_replace_the_runs_they_overlap() {
    let mut presenter = TextSurfaceFramePlanPresenter::new();
    let target = RenderTargetId::new(1);
    assert!(presenter.present(
        &frame(target, 1, vec![RenderCommandDto::Clear, run(0, 1, "abcdef"), run(10, 1, "tail")]),
        &[]
    ));
    let style = TextStyleDto { bold: true, ..TextStyleDto::plain() };
    assert!(presenter.present(
        &frame(
            target,
            2,
            vec![
                RenderCommandDto::StyledTextRun { x: 2, y: 1, text: "XY".to_string(), style },
                run(0, 5, "new row"),
                run(3, 5, ""),
            ]
        ),
        &[]
    ));
    let surface = presenter.surface_of(target).unwrap();
    let runs = surface.row_runs(1).unwrap();
    let placed: Vec<(u32, String, bool)> = runs.iter().map(|run| (run.x, run.text.clone(), run.style.bold)).collect();
    assert_eq!(placed, vec![(2, "XY".to_string(), true), (10, "tail".to_string(), false)]);
    assert_eq!(surface.text_at(1).as_deref(), Some("  XY      tail"));
    assert_eq!(surface.text_at(5).as_deref(), Some("new row"));
    assert_eq!(surface.latest_dirty_rows, vec![1, 5]);
}

#[test]
fn wide_characters_give_way_to_the_cells_a_run_covers() {
    let mut row = TextSurfaceRow::new();
    row.apply_run(TextSurfaceRun { x: 0, text: "\u{6f22}\u{5b57}".to_string(), style: TextStyleDto::plain() });
    assert_eq!(row.text(), "\u{6f22}\u{5b57}");
    row.apply_run(TextSurfaceRun { x: 4, text: "z".to_string(), style: TextStyleDto::plain() });
    assert_eq!(row.text(), "\u{6f22}\u{5b57}z");
    // A run starting inside the first run's cells replaces it.
    row.apply_run(TextSurfaceRun { x: 1, text: "a".to_string(), style: TextStyleDto::plain() });
    assert_eq!(row.runs().len(), 2);
    assert_eq!(row.text(), " a  z");
}

#[test]
fn images_and_pixel_rects_damage_the_whole_surface() {
    let mut presenter = TextSurfaceFramePlanPresenter::new();
    let target = RenderTargetId::new(9);
    let png = |id: &str| RenderCommandDto::PngSurface {
        id: id.to_string(),
        generation: 1,
        x_px: 0,
        y_px: 0,
        width_px: 1,
        height_px: 1,
        png: vec![],
    };
    assert!(presenter.present(&frame(target, 1, vec![run(0, 0, "a"), png("one"), png("one"), png("two")]), &[
        false, true, true, false,
    ]));
    let surface = presenter.surface_of(target).unwrap();
    assert_eq!(surface.image_surface_count(), 1);
    assert!(surface.latest_dirty_rows.is_empty());
    let rect = RenderCommandDto::PixelFillRect {
        x_px: 1,
        y_px: 2,
        width_px: 3,
        height_px: 4,
        color: RgbaColorDto { red: 1, green: 2, blue: 3, alpha: 255 },
    };
    assert!(presenter.present(&frame(target, 2, vec![RenderCommandDto::Clear, rect.clone(), rect]), &[]));
    let surface = presenter.surface_of(target).unwrap();
    assert_eq!(surface.pixel_rects().len(), 2);
    assert_eq!(surface.image_surface_count(), 0);
    let snapshot = presenter
        .surface_snapshot_of(target, &[Some("rect".to_string()), None])
        .expect("the target has a surface");
    assert_eq!(snapshot.rows.len(), 1);
    assert_eq!(snapshot.rows[0].y, PIXEL_RECT_ROW_BASE);
    assert_eq!(snapshot.rows[0].runs[0].text, "rect");
    assert_eq!(snapshot.latest_seq, SeqNo::new(2));
    assert_eq!(snapshot.default_background, RgbColorDto::new(0, 0, 0));
}

#[test]
fn snapshots_list_rows_in_order_with_their_runs() {
    let mut presenter = TextSurfaceFramePlanPresenter::new();
    let target = RenderTargetId::new(4);
    assert!(presenter.present(&frame(target, 5, vec![RenderCommandDto::Clear, run(1, 7, "b"), run(0, 2, "a")]), &[]));
    let snapshot = presenter.surface_snapshot_of(target, &[]).unwrap();
    let rows: Vec<(u32, u32, String)> =
        snapshot.rows.iter().map(|row| (row.y, row.runs[0].x, row.runs[0].text.clone())).collect();
    assert_eq!(rows, vec![(2, 0, "a".to_string()), (7, 1, "b".to_string())]);
    assert_eq!(snapshot.target_id, target);
    assert!(snapshot.cursor.is_none());
}

#[test]
fn quads_are_indexed_as_two_triangles_over_their_corners() {
    assert_eq!(build_quad_indices(2), vec![0, 1, 2, 0, 2, 3, 4, 5, 6, 4, 6, 7]);
    assert!(build_quad_indices(0).is_empty());
    let mut builder = WgpuQuadVertexBufferBuilder::new();
    assert_eq!(builder.cached_indices_for_quad_count(1), vec![0, 1, 2, 0, 2, 3]);
    assert_eq!(builder.cached_indices_for_quad_count(1), vec![0, 1, 2, 0, 2, 3]);
    assert_eq!(builder.cached_indices_for_quad_count(2).len(), 12);
}
