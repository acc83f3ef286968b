use germinal_infra::frame_geometry::{PixelRect, WgpuTerminalRenderTargetPlan};
use germinal_infra::frame_layers::{
    frame_layer_plan, frame_render_stage, WgpuFrameLayer, WgpuFrameLayerResult, WgpuFrameLayerTally,
    WgpuFrameRenderStage, WgpuImageLayer, WgpuTerminalTextLayer,
};
use germinal_infra::ids::RenderTargetId;
use germinal_infra::pipeline_specs::WgpuTerminalLoadOp;
use germinal_infra::retained_frame::WgpuRetainedFrameAction;
use germinal_infra::workspace_present::{
    present_clears_target, present_surface_scissors, retained_frame_eligible, workspace_draw_slots,
    WgpuWorkspaceDrawSlot, WgpuWorkspaceRetainConditions, WgpuWorkspaceSurfaceTraits,
};

fn conditions() -> WgpuWorkspaceRetainConditions {
    WgpuWorkspaceRetainConditions {
        retain_terminal_frame: true,
        has_background_shader: false,
        background_opaque: true,
        has_visual_bell: false,
        render_plugin_count: 0,
        layout_count: 1,
        width_px: 800,
        height_px: 600,
    }
}

fn full_window_surface() -> WgpuWorkspaceSurfaceTraits {
    WgpuWorkspaceSurfaceTraits {
        render_target_plan: WgpuTerminalRenderTargetPlan::new(800, 600),
        background_alpha: 255,
        image_surface_count: 0,
        video_surface_count: 0,
    }
}

#[test]
fn single_opaque_full_window_surface_is_retained() {
    assert!(retained_frame_eligible(&conditions(), &[full_window_surface()]));
}

#[test]
fn retention_is_refused_for_each_disqualifying_condition() {
    let surface = full_window_surface();
    let cases = [
        WgpuWorkspaceRetainConditions { retain_terminal_frame: false, ..conditions() },
        WgpuWorkspaceRetainConditions { has_background_shader: true, ..conditions() },
        WgpuWorkspaceRetainConditions { background_opaque: false, ..conditions() },
        WgpuWorkspaceRetainConditions { has_visual_bell: true, ..conditions() },
        WgpuWorkspaceRetainConditions { render_plugin_count: 1, ..conditions() },
        WgpuWorkspaceRetainConditions { layout_count: 2, ..conditions() },
        WgpuWorkspaceRetainConditions { width_px: 801, ..conditions() },
    ];
    for case in cases {
        assert!(!retained_frame_eligible(&case, &[surface]));
    }
    assert!(!retained_frame_eligible(&conditions(), &[]));
    assert!(!retained_frame_eligible(&conditions(), &[surface, surface]));
    let surfaces = [
        WgpuWorkspaceSurfaceTraits {
            render_target_plan: WgpuTerminalRenderTargetPlan::new(800, 600).with_origin(0, 1),
            ..surface
        },
        WgpuWorkspaceSurfaceTraits { background_alpha: 254, ..surface },
        WgpuWorkspaceSurfaceTraits { image_surface_count: 1, ..surface },
        WgpuWorkspaceSurfaceTraits { video_surface_count: 1, ..surface },
    ];
    for surface in surfaces {
        assert!(!retained_frame_eligible(&conditions(), &[surface]));
    }
}

#[test]
fn target_is_cleared_only_for_full_or_unretained_frames() {
    assert!(present_clears_target(None));
    assert!(present_clears_target(Some(WgpuRetainedFrameAction::Full)));
    assert!(!present_clears_target(Some(WgpuRetainedFrameAction::Reuse)));
    assert!(!present_clears_target(Some(WgpuRetainedFrameAction::Damage { top_px: 0, bottom_px: 16 })));
}

#[test]
fn damaged_frames_scissor_each_surface_to_the_redrawn_band() {
    let plans = [
        WgpuTerminalRenderTargetPlan::new(400, 300).with_origin(10, 20),
        WgpuTerminalRenderTargetPlan::new(400, 300).with_origin(0, u32::MAX - 5),
    ];
    let passes = present_surface_scissors(
        Some(WgpuRetainedFrameAction::Damage { top_px: 16, bottom_px: 48 }),
        &plans,
    );
    assert_eq!(
        passes,
        vec![
            Some(PixelRect { x_px: 10, y_px: 36, width_px: 400, height_px: 32 }),
            Some(PixelRect { x_px: 0, y_px: u32::MAX, width_px: 400, height_px: 32 }),
        ]
    );
    let scrolled = present_surface_scissors(
        Some(WgpuRetainedFrameAction::ScrollUp { rows: 1, preserved_rows: 3, top_px: 48, bottom_px: 40 }),
        &plans[..1],
    );
    assert_eq!(scrolled, vec![Some(PixelRect { x_px: 10, y_px: 68, width_px: 400, height_px: 0 })]);
    assert_eq!(present_surface_scissors(None, &plans), vec![None, None]);
    assert_eq!(present_surface_scissors(Some(WgpuRetainedFrameAction::Full), &plans), vec![None, None]);
    assert!(present_surface_scissors(Some(WgpuRetainedFrameAction::Reuse), &plans).is_empty());
}

#[test]
fn window_draws_panes_without_plugins_then_the_tab_bar() {
    let layout = [RenderTargetId(1), RenderTargetId(2), RenderTargetId(3), RenderTargetId(4)];
    let plugins = [RenderTargetId(2)];
    let slots = workspace_draw_slots(&layout, &plugins, &[true, true, false, true], true);
    assert_eq!(
        slots,
        vec![WgpuWorkspaceDrawSlot::Pane(0), WgpuWorkspaceDrawSlot::Pane(3), WgpuWorkspaceDrawSlot::TabBar]
    );
    assert_eq!(workspace_draw_slots(&layout, &[], &[true; 4], false).len(), 4);
    assert!(workspace_draw_slots(&[], &[], &[], false).is_empty());
}

#[test]
fn render_stage_skips_empty_targets_and_idle_frames() {
    assert_eq!(frame_render_stage(true, true, true, true), WgpuFrameRenderStage::Skip);
    assert_eq!(frame_render_stage(false, false, false, false), WgpuFrameRenderStage::PreparedOnly);
    assert_eq!(frame_render_stage(false, false, false, true), WgpuFrameRenderStage::Encode);
    assert_eq!(frame_render_stage(false, true, false, false), WgpuFrameRenderStage::Encode);
}

#[test]
fn frame_layers_split_text_around_images() {
    assert_eq!(
        frame_layer_plan(true, false),
        vec![
            WgpuFrameLayer::Text(WgpuTerminalTextLayer::All),
            WgpuFrameLayer::Images(WgpuImageLayer::BelowCellBackground),
            WgpuFrameLayer::Images(WgpuImageLayer::BelowText),
            WgpuFrameLayer::Images(WgpuImageLayer::AboveText),
            WgpuFrameLayer::Video,
        ]
    );
    assert_eq!(
        frame_layer_plan(true, true),
        vec![
            WgpuFrameLayer::Text(WgpuTerminalTextLayer::SurfaceBackground),
            WgpuFrameLayer::Images(WgpuImageLayer::BelowCellBackground),
            WgpuFrameLayer::Text(WgpuTerminalTextLayer::CellBackground),
            WgpuFrameLayer::Images(WgpuImageLayer::BelowText),
            WgpuFrameLayer::Text(WgpuTerminalTextLayer::Foreground),
            WgpuFrameLayer::Images(WgpuImageLayer::AboveText),
            WgpuFrameLayer::Video,
        ]
    );
    assert_eq!(frame_layer_plan(false, true).len(), 4);
}

#[test]
fn frame_layer_tally_chains_load_ops_and_sums_results() {
    let mut tally = WgpuFrameLayerTally::new();
    let text = WgpuFrameLayer::Text(WgpuTerminalTextLayer::SurfaceBackground);
    let below = WgpuFrameLayer::Images(WgpuImageLayer::BelowCellBackground);
    assert_eq!(tally.load_op_for(text, WgpuTerminalLoadOp::Clear), WgpuTerminalLoadOp::Clear);
    tally.record(
        text,
        WgpuFrameLayerResult { encoded: false, command_count: 0, draw_count: 0, index_count: 0, surface_count: 0 },
    );
    assert_eq!(tally.load_op_for(below, WgpuTerminalLoadOp::Clear), WgpuTerminalLoadOp::Clear);
    assert_eq!(
        tally.load_op_for(WgpuFrameLayer::Text(WgpuTerminalTextLayer::CellBackground), WgpuTerminalLoadOp::Clear),
        WgpuTerminalLoadOp::Load
    );
    tally.record(
        below,
        WgpuFrameLayerResult { encoded: true, command_count: 7, draw_count: 2, index_count: 9, surface_count: 2 },
    );
    assert_eq!(
        tally.load_op_for(WgpuFrameLayer::Images(WgpuImageLayer::AboveText), WgpuTerminalLoadOp::Clear),
        WgpuTerminalLoadOp::Load
    );
    tally.record(
        WgpuFrameLayer::Text(WgpuTerminalTextLayer::Foreground),
        WgpuFrameLayerResult { encoded: true, command_count: 5, draw_count: 1, index_count: 6, surface_count: 0 },
    );
    tally.record(
        WgpuFrameLayer::Video,
        WgpuFrameLayerResult { encoded: true, command_count: 0, draw_count: 3, index_count: 0, surface_count: 1 },
    );
    assert_eq!(
        tally,
        WgpuFrameLayerTally {
            encoded: true,
            command_count: 7,
            draw_count: 6,
            index_count: 6,
            image_surface_count: 2,
            image_draw_count: 2,
            video_surface_count: 1,
            video_draw_count: 3,
        }
    );
}
