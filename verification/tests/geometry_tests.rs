use germinal_infra::atlas_layout::GlyphAtlasGridLayout;
use germinal_infra::frame_geometry::{
    visual_bell_border_rects, workspace_divider_rects, VisualBellRect, WgpuTerminalRenderTargetPlan,
    WgpuVisualBellFrame, WorkspaceDividerRect,
};
use germinal_infra::glyph_key::WgpuTerminalGlyphKey;
use germinal_infra::pipeline_specs::{
    layer_load_op, terminal_power_preference_for_device_types, transparent_surface_alpha_mode, GpuDeviceType,
    WgpuCompositeAlphaMode, WgpuTerminalCommandEncoderAdapterSpec, WgpuTerminalLoadOp, WgpuTerminalPowerPreference,
    WgpuTerminalShaderSpec,
};
use germinal_infra::raster_atlas::{terminal_glyph_draw_offset, RasterizedTerminalGlyph};

#[test]
fn adapter_spec_matches_terminal_pass_layout() {
    let spec = WgpuTerminalCommandEncoderAdapterSpec::new();

    assert_eq!(spec.color_attachment_count, 1);
    assert!(!spec.has_depth_stencil_attachment);
    assert!(!spec.has_timestamp_writes);
    assert!(!spec.has_occlusion_query_set);
    assert!(!spec.has_multiview_mask);
}

#[test]
fn short_text_glyph_preserves_font_baseline_offset() {
    let glyph = RasterizedTerminalGlyph {
        key: WgpuTerminalGlyphKey::styled('"', false, false),
        cell_width: 1,
        width_px: 4,
        height_px: 6,
        left_px: 3,
        top_px: 18,
        advance_px: 12,
        pixels: vec![],
        is_color: false,
        direct_draw_offset: None,
    };

    assert_eq!(terminal_glyph_draw_offset(&glyph, 12, 24), (3, 6));
}

#[test]
fn grows_columns_to_stay_within_texture_height_limit() {
    let layout = GlyphAtlasGridLayout::new(4600, 16, 20, 30, 2, 8192);

    assert!(layout.columns > 16);
    assert!(layout.atlas_width <= 8192);
    assert!(layout.atlas_height <= 8192);
}

#[test]
fn caps_columns_when_width_limit_is_tighter_than_preference() {
    let layout = GlyphAtlasGridLayout::new(1000, 16, 700, 10, 2, 8192);

    assert_eq!(layout.columns, 11);
    assert!(layout.atlas_width <= 8192);
}

#[test]
fn caps_glyph_count_when_the_texture_cannot_hold_every_entry() {
    let layout = GlyphAtlasGridLayout::new(100, 16, 20, 30, 2, 64);

    assert_eq!(layout.glyph_capacity, 6);
    assert!(layout.atlas_width <= 64);
    assert!(layout.atlas_height <= 64);
}

#[test]
fn grid_layout_holds_every_glyph_when_the_texture_is_large_enough() {
    let layout = GlyphAtlasGridLayout::new(40, 16, 10, 12, 1, 4096);

    assert_eq!(layout.columns, 16);
    assert_eq!(layout.row_count, 3);
    assert!(layout.glyph_capacity >= 40);
    assert_eq!(layout.atlas_width, 1 + 16 * 10);
}

#[test]
fn visual_bell_uses_four_pixel_window_border() {
    assert_eq!(
        visual_bell_border_rects(WgpuVisualBellFrame::new(100, 80)),
        vec![
            VisualBellRect {
                x_px: 0,
                y_px: 0,
                width_px: 100,
                height_px: 4,
            },
            VisualBellRect {
                x_px: 0,
                y_px: 76,
                width_px: 100,
                height_px: 4,
            },
            VisualBellRect {
                x_px: 0,
                y_px: 4,
                width_px: 4,
                height_px: 72,
            },
            VisualBellRect {
                x_px: 96,
                y_px: 4,
                width_px: 4,
                height_px: 72,
            },
        ]
    );
}

#[test]
fn visual_bell_skips_empty_windows() {
    assert!(visual_bell_border_rects(WgpuVisualBellFrame::new(0, 80)).is_empty());
    assert!(visual_bell_border_rects(WgpuVisualBellFrame::new(100, 0)).is_empty());
}

#[test]
fn builds_vertical_divider_for_adjacent_targets() {
    let targets = [
        WgpuTerminalRenderTargetPlan::new(50, 40),
        WgpuTerminalRenderTargetPlan::new(51, 40).with_origin(50, 0),
    ];

    assert_eq!(
        workspace_divider_rects(&targets),
        vec![WorkspaceDividerRect {
            x_px: 49,
            y_px: 0,
            width_px: 2,
            height_px: 40
        }]
    );
}

#[test]
fn single_target_has_no_divider() {
    assert!(workspace_divider_rects(&[WgpuTerminalRenderTargetPlan::new(80, 40)]).is_empty());
}

#[test]
fn builds_default_render_target_plan() {
    let plan = WgpuTerminalRenderTargetPlan::new(1280, 720);

    assert_eq!(plan.width_px, 1280);
    assert_eq!(plan.height_px, 720);
    assert_eq!(plan.load_op, WgpuTerminalLoadOp::Clear);
    assert!(plan.store);
    assert!(!plan.is_empty());
}

#[test]
fn detects_empty_render_target() {
    assert!(WgpuTerminalRenderTargetPlan::new(0, 720).is_empty());
    assert!(WgpuTerminalRenderTargetPlan::new(1280, 0).is_empty());
    assert!(WgpuTerminalRenderTargetPlan::new(0, 0).is_empty());
    assert!(!WgpuTerminalRenderTargetPlan::new(1280, 720).is_empty());
}

#[test]
fn render_target_builders_replace_one_field_each() {
    let plan = WgpuTerminalRenderTargetPlan::new(10, 20)
        .with_origin(3, 4)
        .with_load_op(WgpuTerminalLoadOp::Load)
        .with_store(false);

    assert_eq!((plan.x_px, plan.y_px, plan.width_px, plan.height_px), (3, 4, 10, 20));
    assert_eq!(plan.load_op, WgpuTerminalLoadOp::Load);
    assert!(!plan.store);
}

#[test]
fn shader_spec_uses_terminal_entries() {
    let spec = WgpuTerminalShaderSpec::new();

    assert_eq!(spec.vertex_entry, "vs_main");
    assert_eq!(spec.fragment_entry, "fs_main");
    assert_eq!(spec.viewport_binding, 0);
    assert_eq!(spec.viewport_bind_group, 0);
    assert!(spec.shader_source().contains("fn vs_main"));
    assert!(spec.shader_source().contains("fn fs_main"));
    assert!(spec.source.contains("@group(0) @binding(0)"));
    assert!(spec.source.contains("@group(1) @binding(0)"));
    assert!(spec.source.contains("@group(1) @binding(1)"));
    assert!(spec.source.contains("textureSample"));
}

#[test]
fn first_run_power_detection_prefers_discrete_and_falls_back_to_low_power() {
    assert_eq!(
        terminal_power_preference_for_device_types(&[GpuDeviceType::IntegratedGpu, GpuDeviceType::DiscreteGpu]),
        WgpuTerminalPowerPreference::High
    );
    assert_eq!(
        terminal_power_preference_for_device_types(&[GpuDeviceType::IntegratedGpu]),
        WgpuTerminalPowerPreference::Low
    );
    assert_eq!(terminal_power_preference_for_device_types(&[]), WgpuTerminalPowerPreference::Low);
}

#[test]
fn transparency_prefers_premultiplied_surface_alpha() {
    assert_eq!(
        transparent_surface_alpha_mode(&[WgpuCompositeAlphaMode::Opaque, WgpuCompositeAlphaMode::PreMultiplied]),
        WgpuCompositeAlphaMode::PreMultiplied
    );
    assert_eq!(transparent_surface_alpha_mode(&[WgpuCompositeAlphaMode::Opaque]), WgpuCompositeAlphaMode::Auto);
}

#[test]
fn layers_after_a_drawn_one_load_what_it_drew() {
    assert_eq!(layer_load_op(true, WgpuTerminalLoadOp::Clear), WgpuTerminalLoadOp::Load);
    assert_eq!(layer_load_op(false, WgpuTerminalLoadOp::Clear), WgpuTerminalLoadOp::Clear);
    assert_eq!(layer_load_op(false, WgpuTerminalLoadOp::Load), WgpuTerminalLoadOp::Load);
}
