use germinal_infra::colors::{RgbColorDto, TerminalColorTheme, TextStyleDto};
use germinal_infra::ids::{RenderTargetId, SeqNo};
use germinal_infra::render_surface::{
    RenderSurfaceCursorShape, RenderSurfaceCursorSnapshot, RenderSurfaceRowSnapshot, RenderSurfaceRunSnapshot,
    RenderSurfaceSnapshot,
};
use germinal_infra::retained_frame::{
    damage_action_for_rows, pixel_row, retained_frame_action, scroll_up_rows, PixelPosition,
    WgpuRendererConfig, WgpuRetainedFrameAction, WgpuRetainedWorkspaceSnapshot,
};

fn config() -> WgpuRendererConfig {
    WgpuRendererConfig {
        content_width_px: 80,
        content_height_px: 64,
        grid_columns: 10,
        grid_rows: 4,
        ..WgpuRendererConfig::default()
    }
}

fn snapshot(seq: u64, lines: &[&str], dirty_rows: Vec<u32>) -> RenderSurfaceSnapshot {
    RenderSurfaceSnapshot {
        target_id: RenderTargetId::new(1),
        latest_seq: SeqNo::new(seq),
        default_background: RgbColorDto::new(1, 2, 3),
        rows: lines
            .iter()
            .enumerate()
            .map(|(y, text)| RenderSurfaceRowSnapshot {
                y: y as u32,
                runs: vec![RenderSurfaceRunSnapshot {
                    x: 0,
                    text: (*text).to_string(),
                    style: TextStyleDto::plain(),
                }],
            })
            .collect(),
        video_surfaces: vec![],
        image_surface_count: 0,
        dirty_rows,
        cursor: None,
        ime_preedit: None,
    }
}

fn action(
    previous: &WgpuRetainedWorkspaceSnapshot,
    current: &RenderSurfaceSnapshot,
) -> WgpuRetainedFrameAction {
    retained_frame_action(Some(previous), current, config())
}

#[test]
fn detects_one_row_terminal_scroll_and_only_damages_exposed_row() {
    let previous = WgpuRetainedWorkspaceSnapshot {
        snapshot: snapshot(1, &["a", "b", "c", "d"], vec![0, 1, 2, 3]),
        renderer_config: config(),
    };
    let current = snapshot(2, &["b", "c", "d", "e"], vec![0, 1, 2, 3]);

    assert_eq!(
        action(&previous, &current),
        WgpuRetainedFrameAction::ScrollUp {
            rows: 1,
            preserved_rows: 3,
            top_px: 48,
            bottom_px: 64,
        }
    );
}

#[test]
fn keeps_partial_non_scroll_damage_scissored_to_changed_rows() {
    let previous = WgpuRetainedWorkspaceSnapshot {
        snapshot: snapshot(1, &["a", "b", "c", "d"], vec![1, 2, 3]),
        renderer_config: config(),
    };
    let current = snapshot(2, &["a", "b", "changed", "d"], vec![1, 2, 3]);

    assert_eq!(
        action(&previous, &current),
        WgpuRetainedFrameAction::Damage {
            top_px: 16,
            bottom_px: 64,
        }
    );
}

#[test]
fn reuses_retained_texture_when_frame_and_dynamic_config_are_unchanged() {
    let current = snapshot(3, &["a", "b", "c", "d"], vec![2]);
    let previous = WgpuRetainedWorkspaceSnapshot {
        snapshot: current.clone(),
        renderer_config: config(),
    };

    assert_eq!(action(&previous, &current), WgpuRetainedFrameAction::Reuse);
}

#[test]
fn empty_damage_forces_a_full_retained_frame_rebuild() {
    let previous = WgpuRetainedWorkspaceSnapshot {
        snapshot: snapshot(1, &["a", "b", "c", "d"], vec![2]),
        renderer_config: config(),
    };
    let current = snapshot(2, &["a", "b", "c", "d"], Vec::new());

    assert_eq!(action(&previous, &current), WgpuRetainedFrameAction::Full);
}

#[test]
fn no_previous_frame_forces_a_full_frame() {
    let current = snapshot(1, &["a"], vec![0]);

    assert_eq!(
        retained_frame_action(None, &current, config()),
        WgpuRetainedFrameAction::Full
    );
}

#[test]
fn a_cursor_move_in_the_same_frame_damages_only_its_rows() {
    let mut previous_snapshot = snapshot(3, &["a", "b", "c", "d"], vec![1]);
    previous_snapshot.cursor = Some(RenderSurfaceCursorSnapshot { x: 0, y: 1, focused: true, shape: RenderSurfaceCursorShape::Block, blinking: false });
    let mut current = previous_snapshot.clone();
    current.cursor = Some(RenderSurfaceCursorSnapshot { x: 1, y: 1, focused: true, shape: RenderSurfaceCursorShape::Block, blinking: false });
    let previous = WgpuRetainedWorkspaceSnapshot {
        snapshot: previous_snapshot,
        renderer_config: config(),
    };

    assert_eq!(
        action(&previous, &current),
        WgpuRetainedFrameAction::Damage {
            top_px: 16,
            bottom_px: 32,
        }
    );
}

#[test]
fn damage_over_the_whole_grid_is_a_full_frame() {
    assert_eq!(
        damage_action_for_rows(config(), &[0, 3]),
        WgpuRetainedFrameAction::Full
    );
    assert_eq!(
        damage_action_for_rows(config(), &[7, 9]),
        WgpuRetainedFrameAction::Reuse
    );
    assert_eq!(
        damage_action_for_rows(config(), &[2, 1]),
        WgpuRetainedFrameAction::Damage {
            top_px: 16,
            bottom_px: 48
        }
    );
}

#[test]
fn damage_bounds_are_given_for_damage_and_scroll_only() {
    assert_eq!(WgpuRetainedFrameAction::Full.damage_bounds(), None);
    assert_eq!(WgpuRetainedFrameAction::Reuse.damage_bounds(), None);
    assert_eq!(
        WgpuRetainedFrameAction::Damage {
            top_px: 3,
            bottom_px: 9
        }
        .damage_bounds(),
        Some((3, 9))
    );
    assert_eq!(
        WgpuRetainedFrameAction::ScrollUp {
            rows: 1,
            preserved_rows: 2,
            top_px: 4,
            bottom_px: 8
        }
        .damage_bounds(),
        Some((4, 8))
    );
}

#[test]
fn rows_share_the_content_height() {
    let config = WgpuRendererConfig {
        content_height_px: 10,
        grid_rows: 3,
        content_origin_y: 5,
        ..WgpuRendererConfig::default()
    };

    assert_eq!(config.row_offset_px(1), 3);
    assert_eq!(config.row_top_px(1), 8);
    assert_eq!(config.row_height_px(2), 4);
    assert_eq!(config.row_top_px(4), 5 + 4 * 16);
    assert_eq!(config.row_height_px(9), 16);
}

#[test]
fn pixel_rows_map_back_to_grid_rows() {
    let config = config();

    assert_eq!(pixel_row(config, 0), 0);
    assert_eq!(pixel_row(config, 17), 1);
    assert_eq!(pixel_row(config, 63), 3);
    let with_cursor = WgpuRendererConfig {
        cursor_position_px: Some(PixelPosition { x_px: 0, y_px: 40 }),
        ..config
    };
    assert_eq!(pixel_row(with_cursor, 40), 2);
}

#[test]
fn scroll_detection_prefers_the_shift_that_keeps_most_rows() {
    let previous = snapshot(1, &["a", "b", "c", "d"], vec![]);
    let current = snapshot(2, &["c", "d", "x", "y"], vec![]);

    assert_eq!(scroll_up_rows(&previous, &current, 4), Some((2, 2)));
    assert_eq!(scroll_up_rows(&previous, &previous, 4), None);
}

#[test]
fn color_themes_set_the_cursor_colors_only() {
    let theme = TerminalColorTheme {
        palette: [RgbColorDto::new(1, 1, 1); 16],
        cursor: RgbColorDto::new(250, 200, 100),
        cursor_text: RgbColorDto::new(5, 6, 7),
        tab_bar_background: RgbColorDto::new(0, 0, 0),
        active_tab_foreground: RgbColorDto::new(0, 0, 0),
        active_tab_background: RgbColorDto::new(0, 0, 0),
        inactive_tab_foreground: RgbColorDto::new(0, 0, 0),
        inactive_tab_background: RgbColorDto::new(0, 0, 0),
    };
    let base = config();
    let themed = base.with_color_theme(theme);
    assert_eq!(themed.cursor_color, RgbColorDto::new(250, 200, 100));
    assert_eq!(themed.cursor_text_color, RgbColorDto::new(5, 6, 7));
    assert_eq!(WgpuRendererConfig { cursor_color: base.cursor_color, cursor_text_color: base.cursor_text_color, ..themed }, base);
}
