use germinal_infra::colors::{RgbColorDto, TextStyleDto};
use germinal_infra::ids::{RenderTargetId, SeqNo};
use germinal_infra::quad_plan::{RgbaColorDto, WgpuQuadDrawItem, WgpuQuadKind};
use germinal_infra::render_surface::{
    RenderSurfaceCursorShape, RenderSurfaceCursorSnapshot, RenderSurfaceImePreeditSnapshot,
    RenderSurfaceRowSnapshot, RenderSurfaceRunSnapshot, RenderSurfaceSnapshot,
};
use germinal_infra::frame_geometry::{fit_video_frame_rect, VideoSurfaceRect};
use germinal_infra::renderer_backend::{
    append_pixel_rect_quads_from_row, layout_video_surface_rect, scale_video_surface_rect, CellPixelRect,
    GeometricGlyphShape, GeometricGlyphTable, PixelFillRect, SurfaceDecoding, WgpuDrawRow, WgpuGlyphDrawItem,
    WgpuRendererBackend,
};
use germinal_infra::retained_frame::WgpuRendererConfig;

const CURSOR_COLOR: RgbColorDto = RgbColorDto { red: 235, green: 235, blue: 235 };

/// The configuration of a window of `width` by `height` pixels with
/// `padding` on each side, cut into cells of `cell_width` by `cell_height`.
fn window_config(width: u32, height: u32, cell_width: u32, cell_height: u32, padding: (u32, u32)) -> WgpuRendererConfig {
    let content_width = width - 2 * padding.0;
    let content_height = height - 2 * padding.1;
    WgpuRendererConfig {
        cell_width_px: cell_width,
        cell_height_px: cell_height,
        content_origin_x: padding.0,
        content_origin_y: padding.1,
        content_width_px: content_width,
        content_height_px: content_height,
        grid_columns: content_width / cell_width,
        grid_rows: content_height / cell_height,
        ..WgpuRendererConfig::default()
    }
}

fn surface(
    rows: Vec<RenderSurfaceRowSnapshot>,
    cursor: Option<RenderSurfaceCursorSnapshot>,
    ime_preedit: Option<RenderSurfaceImePreeditSnapshot>,
) -> RenderSurfaceSnapshot {
    RenderSurfaceSnapshot {
        target_id: RenderTargetId::new(1),
        latest_seq: SeqNo::new(1),
        default_background: RgbColorDto::new(0, 0, 0),
        rows,
        video_surfaces: vec![],
        image_surface_count: 0,
        dirty_rows: vec![],
        cursor,
        ime_preedit,
    }
}

fn text_row(y: u32, x: u32, text: &str, style: TextStyleDto) -> RenderSurfaceRowSnapshot {
    RenderSurfaceRowSnapshot { y, runs: vec![RenderSurfaceRunSnapshot { x, text: text.to_string(), style }] }
}

fn no_pixel_rows(snapshot: &RenderSurfaceSnapshot) -> SurfaceDecoding {
    SurfaceDecoding {
        pixel_commands: snapshot.rows.iter().map(|row| vec![None; row.runs.len()]).collect(),
        preedit_cursor_cell: None,
    }
}

fn no_shapes() -> GeometricGlyphTable {
    GeometricGlyphTable { shapes: vec![] }
}

fn cursor(x: u32, y: u32, shape: RenderSurfaceCursorShape) -> RenderSurfaceCursorSnapshot {
    RenderSurfaceCursorSnapshot { x, y, focused: true, shape, blinking: false }
}

fn rendered(config: WgpuRendererConfig, snapshot: &RenderSurfaceSnapshot, table: &GeometricGlyphTable) -> WgpuRendererBackend {
    let mut backend = WgpuRendererBackend::new(config);
    backend.render_surface(snapshot, &no_pixel_rows(snapshot), table);
    backend
}

fn pixel_row() -> RenderSurfaceRowSnapshot {
    RenderSurfaceRowSnapshot {
        y: 0,
        runs: vec![RenderSurfaceRunSnapshot { x: 0, text: "pixels".to_string(), style: TextStyleDto::plain() }],
    }
}

#[test]
fn pixel_rects_fill_full_content_size_when_window_has_partial_cells() {
    let config = window_config(1000, 610, 12, 24, (0, 0));
    let command = PixelFillRect {
        x_px: 0,
        y_px: 0,
        width_px: config.grid_columns * 8,
        height_px: config.grid_rows * 16,
        color: RgbaColorDto { red: 1, green: 2, blue: 3, alpha: 255 },
    };
    let mut quads = Vec::new();

    assert!(append_pixel_rect_quads_from_row(&mut quads, &pixel_row(), config, &vec![Some(command)]));
    assert_eq!(quads.len(), 1);
    assert_eq!(quads[0].kind, WgpuQuadKind::PixelRect { color: RgbaColorDto { red: 1, green: 2, blue: 3, alpha: 255 } });
    assert_eq!(quads[0].x_px, 0);
    assert_eq!(quads[0].y_px, 0);
    assert_eq!(quads[0].width_px, 1000);
    assert_eq!(quads[0].height_px, 610);
}

#[test]
fn pixel_rects_respect_padding_origin_while_filling_content_area() {
    let config = window_config(1000, 610, 12, 24, (10, 6));
    let command = PixelFillRect {
        x_px: 0,
        y_px: 0,
        width_px: config.grid_columns * 8,
        height_px: config.grid_rows * 16,
        color: RgbaColorDto { red: 9, green: 8, blue: 7, alpha: 255 },
    };
    let mut quads = Vec::new();

    assert!(append_pixel_rect_quads_from_row(&mut quads, &pixel_row(), config, &vec![Some(command)]));
    assert_eq!(quads.len(), 1);
    assert_eq!(quads[0].x_px, 10);
    assert_eq!(quads[0].y_px, 6);
    assert_eq!(quads[0].width_px, 980);
    assert_eq!(quads[0].height_px, 598);
}

#[test]
fn surface_background_covers_partial_cell_remainder() {
    let config = window_config(100, 35, 8, 16, (0, 0));
    let background = RgbColorDto::new(20, 21, 30);
    let mut snapshot = surface(vec![], None, None);
    snapshot.default_background = background;
    let backend = rendered(config, &snapshot, &no_shapes());

    let backgrounds = backend.state().background_quads();
    assert_eq!(backgrounds.len(), 1);
    assert_eq!(backgrounds[0].x_px, 0);
    assert_eq!(backgrounds[0].y_px, 0);
    assert_eq!(backgrounds[0].width_px, 100);
    assert_eq!(backgrounds[0].height_px, 35);
    assert_eq!(backgrounds[0].style.background, Some(background));
}

#[test]
fn rows_distribute_partial_cell_remainder_to_reach_the_viewport_bottom() {
    let config = window_config(100, 35, 8, 16, (0, 0));

    assert_eq!(config.grid_rows, 2);
    assert_eq!(config.row_top_px(0), 0);
    assert_eq!(config.row_height_px(0), 17);
    assert_eq!(config.row_top_px(1), 17);
    assert_eq!(config.row_height_px(1), 18);
    assert_eq!(config.row_top_px(1) + config.row_height_px(1), 35);
}

#[test]
fn last_row_background_reaches_the_viewport_bottom() {
    let config = window_config(100, 35, 8, 16, (0, 0));
    let quad = WgpuQuadDrawItem::background(
        0,
        1,
        12,
        config,
        TextStyleDto { background: Some(RgbColorDto::new(20, 21, 30)), ..TextStyleDto::plain() },
    );

    assert_eq!(quad.y_px, 17);
    assert_eq!(quad.height_px, 18);
    assert_eq!(quad.y_px + quad.height_px, 35);
}

#[test]
fn focused_cursor_renders_as_a_solid_cell() {
    let snapshot = surface(vec![], Some(cursor(2, 3, RenderSurfaceCursorShape::Block)), None);
    let backend = rendered(WgpuRendererConfig::default(), &snapshot, &no_shapes());

    let cursors = backend.state().geometric_quads();
    assert_eq!(cursors.len(), 1);
    assert_eq!(cursors[0].x_px, 16);
    assert_eq!(cursors[0].y_px, 48);
    assert_eq!(cursors[0].width_px, 8);
    assert_eq!(cursors[0].height_px, 16);
}

#[test]
fn block_cursor_uses_theme_colors_and_repaints_covered_text() {
    let cursor_color = RgbColorDto::new(12, 34, 56);
    let cursor_text = RgbColorDto::new(210, 220, 230);
    let config = WgpuRendererConfig { cursor_color, cursor_text_color: cursor_text, ..WgpuRendererConfig::default() };
    let snapshot = surface(
        vec![text_row(0, 0, "x", TextStyleDto::plain())],
        Some(cursor(0, 0, RenderSurfaceCursorShape::Block)),
        None,
    );
    let backend = rendered(config, &snapshot, &no_shapes());

    let state = backend.state();
    let block = state
        .geometric_quads()
        .into_iter()
        .find(|quad| quad.width_px == 8 && quad.height_px == 16)
        .expect("block cursor should render");
    assert_eq!(block.style.foreground, Some(cursor_color));
    assert_eq!(
        state.glyph_quads().last().expect("cursor text should render").style.foreground,
        Some(cursor_text)
    );
    let rows: Vec<u32> = state.rows().iter().map(|row| row.draw_row.y).collect();
    assert_eq!(rows, vec![0]);
}

#[test]
fn renders_beam_underline_hollow_and_hidden_cursor_shapes() {
    let render = |shape| {
        let snapshot = surface(vec![], Some(cursor(2, 3, shape)), None);
        rendered(WgpuRendererConfig::default(), &snapshot, &no_shapes()).state().geometric_quads()
    };

    let beam = render(RenderSurfaceCursorShape::Beam);
    assert_eq!(beam.len(), 1);
    assert_eq!((beam[0].width_px, beam[0].height_px), (1, 16));

    let underline = render(RenderSurfaceCursorShape::Underline);
    assert_eq!(underline.len(), 1);
    assert_eq!((underline[0].width_px, underline[0].height_px), (8, 2));
    assert_eq!(underline[0].y_px, 62);

    assert_eq!(render(RenderSurfaceCursorShape::HollowBlock).len(), 4);
    assert!(render(RenderSurfaceCursorShape::Hidden).is_empty());
}

#[test]
fn unfocused_cursor_is_hidden() {
    let unfocused = RenderSurfaceCursorSnapshot { focused: false, ..cursor(2, 3, RenderSurfaceCursorShape::Block) };
    let snapshot = surface(vec![], Some(unfocused), None);
    let backend = rendered(WgpuRendererConfig::default(), &snapshot, &no_shapes());

    assert!(backend.state().geometric_quads().is_empty());
}

#[test]
fn blinking_cursor_is_hidden_during_the_off_phase() {
    let blinking = RenderSurfaceCursorSnapshot { blinking: true, ..cursor(0, 0, RenderSurfaceCursorShape::Block) };
    let snapshot = surface(vec![], Some(blinking), None);
    let backend = rendered(WgpuRendererConfig::default().with_blinking_cursor_visible(false), &snapshot, &no_shapes());

    assert!(backend.state().geometric_quads().is_empty());
}

#[test]
fn ime_preedit_wraps_wide_glyphs_and_renders_selection_and_caret() {
    let config = WgpuRendererConfig {
        cell_width_px: 8,
        cell_height_px: 16,
        content_origin_x: 0,
        content_origin_y: 0,
        content_width_px: 32,
        content_height_px: 32,
        grid_columns: 4,
        grid_rows: 2,
        blinking_cursor_visible: true,
        ..WgpuRendererConfig::default()
    };
    let default_background = RgbColorDto::new(0, 0, 0);
    let snapshot = surface(
        vec![],
        Some(cursor(3, 0, RenderSurfaceCursorShape::Block)),
        Some(RenderSurfaceImePreeditSnapshot { text: "你a".to_string(), cursor_range: Some((0, 3)) }),
    );
    let decoding = SurfaceDecoding { pixel_commands: vec![], preedit_cursor_cell: Some((2, 1)) };
    let mut backend = WgpuRendererBackend::new(config);
    backend.render_surface(&snapshot, &decoding, &no_shapes());

    let state = backend.state();
    let glyphs = state.glyph_quads();
    assert_eq!(glyphs.len(), 2);
    assert_eq!(glyphs[0].kind, WgpuQuadKind::Glyph { c: '你', bold: false, italic: false });
    assert_eq!((glyphs[0].x_px, glyphs[0].y_px, glyphs[0].width_px), (0, 16, 16));
    assert_eq!(glyphs[1].kind, WgpuQuadKind::Glyph { c: 'a', bold: false, italic: false });
    assert_eq!((glyphs[1].x_px, glyphs[1].y_px, glyphs[1].width_px), (16, 16, 8));

    let backgrounds = state.background_quads();
    assert_eq!(backgrounds.len(), 3);
    assert_eq!(backgrounds[1].style.background, Some(CURSOR_COLOR));
    assert_eq!(backgrounds[2].style.background, Some(default_background));
    assert_eq!(state.underline_quads().len(), 2);

    let caret = state.geometric_quads();
    assert_eq!(caret.len(), 1);
    assert_eq!((caret[0].x_px, caret[0].y_px), (16, 16));
    assert_eq!((caret[0].width_px, caret[0].height_px), (1, 16));
}

fn one_cell_config() -> WgpuRendererConfig {
    WgpuRendererConfig {
        cell_width_px: 8,
        cell_height_px: 16,
        content_origin_x: 0,
        content_origin_y: 0,
        content_width_px: 8,
        content_height_px: 16,
        grid_columns: 1,
        grid_rows: 1,
        blinking_cursor_visible: true,
        ..WgpuRendererConfig::default()
    }
}

fn shape(c: char, rects: Vec<CellPixelRect>) -> GeometricGlyphShape {
    GeometricGlyphShape { c, cell_width_px: 8, cell_height_px: 16, cells: 1, rects }
}

fn rect(x_px: u32, y_px: u32, width_px: u32, height_px: u32) -> CellPixelRect {
    CellPixelRect { x_px, y_px, width_px, height_px }
}

#[test]
fn renders_block_elements_as_geometry_instead_of_font_glyphs() {
    let table = GeometricGlyphTable { shapes: vec![shape('▄', vec![rect(0, 8, 8, 8)])] };
    let snapshot = surface(vec![text_row(0, 0, "▄", TextStyleDto::plain())], None, None);
    let backend = rendered(one_cell_config(), &snapshot, &table);

    let state = backend.state();
    assert!(state.glyph_quads().is_empty());

    let block_quads = state.geometric_quads();
    assert_eq!(block_quads.len(), 1);
    assert_eq!(block_quads[0].x_px, 0);
    assert_eq!(block_quads[0].y_px, 8);
    assert_eq!(block_quads[0].width_px, 8);
    assert_eq!(block_quads[0].height_px, 8);
}

#[test]
fn renders_box_drawing_as_geometry_instead_of_font_glyphs() {
    let table = GeometricGlyphTable { shapes: vec![shape('│', vec![rect(4, 0, 1, 8), rect(4, 8, 1, 8)])] };
    let snapshot = surface(vec![text_row(0, 0, "│", TextStyleDto::plain())], None, None);
    let backend = rendered(one_cell_config(), &snapshot, &table);

    let state = backend.state();
    assert!(state.glyph_quads().is_empty());

    let line_quads = state.geometric_quads();
    assert_eq!(line_quads.len(), 2);
    assert!(line_quads.iter().all(|quad| quad.width_px == 1));
    assert_eq!(line_quads[0].x_px, 4);
    assert_eq!(line_quads[0].y_px, 0);
}

#[test]
fn renders_sextants_as_geometry_instead_of_font_glyphs() {
    let table = GeometricGlyphTable { shapes: vec![shape('\u{1FB02}', vec![rect(0, 0, 8, 5)])] };
    let snapshot = surface(vec![text_row(0, 0, "\u{1FB02}", TextStyleDto::plain())], None, None);
    let backend = rendered(one_cell_config(), &snapshot, &table);

    let state = backend.state();
    assert!(state.glyph_quads().is_empty());
    assert_eq!(state.geometric_quads(), vec![WgpuQuadDrawItem::solid_rect(0, 0, 8, 5, TextStyleDto::plain())]);
}

#[test]
fn rows_lay_out_runs_skip_zero_width_characters_and_draw_styles() {
    let config = WgpuRendererConfig {
        content_width_px: 80,
        content_height_px: 32,
        grid_columns: 10,
        grid_rows: 2,
        ..WgpuRendererConfig::default()
    };
    let style = TextStyleDto {
        background: Some(RgbColorDto::new(1, 1, 1)),
        underline: true,
        ..TextStyleDto::plain()
    };
    let row = RenderSurfaceRowSnapshot {
        y: 1,
        runs: vec![
            RenderSurfaceRunSnapshot { x: 1, text: "a\u{200b}漢 b".to_string(), style },
            RenderSurfaceRunSnapshot { x: 8, text: "z".to_string(), style: TextStyleDto::plain() },
        ],
    };
    let snapshot = surface(vec![row], None, None);
    let backend = rendered(config, &snapshot, &no_shapes());
    let state = backend.state();

    let placed: Vec<(u32, char, u32)> = state.glyphs().iter().map(|g| (g.x, g.c, g.cell_width)).collect();
    assert_eq!(placed, vec![(1, 'a', 1), (2, '漢', 2), (4, ' ', 1), (5, 'b', 1), (8, 'z', 1)]);
    // The space gets a background and an underline but no glyph.
    assert_eq!(state.glyph_quads().len(), 4);
    assert_eq!(state.background_quads().len(), 1 + 4);
    assert_eq!(state.underline_quads().len(), 4);
    let wide = state.glyph_quads()[1];
    assert_eq!((wide.x_px, wide.y_px, wide.width_px, wide.height_px), (16, 16, 16, 16));
    let underline = state.underline_quads()[0];
    assert_eq!((underline.x_px, underline.y_px, underline.width_px, underline.height_px), (8, 30, 8, 1));
    assert_eq!(state.line_texts(), vec![" a漢  b  z".to_string()]);
}

#[test]
fn dirty_rows_rerender_only_their_lines() {
    let config = WgpuRendererConfig {
        content_width_px: 80,
        content_height_px: 48,
        grid_columns: 10,
        grid_rows: 3,
        ..WgpuRendererConfig::default()
    };
    let plain = TextStyleDto::plain();
    let first = surface(vec![text_row(0, 0, "one", plain), text_row(1, 0, "two", plain)], None, None);
    let mut backend = WgpuRendererBackend::new(config);
    backend.render_surface(&first, &no_pixel_rows(&first), &no_shapes());
    assert_eq!(backend.state().line_texts(), vec!["one".to_string(), "two".to_string()]);

    // Only line 2 is dirty: line 1 keeps what was rendered, even though the
    // snapshot now shows something else there.
    let mut second = surface(vec![text_row(1, 0, "TWO", plain), text_row(2, 0, "three", plain)], None, None);
    second.dirty_rows = vec![2];
    backend.render_surface(&second, &no_pixel_rows(&second), &no_shapes());
    assert_eq!(
        backend.state().line_texts(),
        vec!["one".to_string(), "two".to_string(), "three".to_string()]
    );

    // A dirty line without a text row is dropped.
    let mut third = surface(vec![text_row(2, 0, "three", plain)], None, None);
    third.dirty_rows = vec![0, 1];
    backend.render_surface(&third, &no_pixel_rows(&third), &no_shapes());
    assert_eq!(backend.state().line_texts(), vec!["three".to_string()]);
    assert_eq!(backend.state().render_count, 3);

    // Another target renders everything anew.
    let mut other = surface(vec![text_row(0, 0, "x", plain)], None, None);
    other.target_id = RenderTargetId::new(2);
    other.dirty_rows = vec![5];
    backend.render_surface(&other, &no_pixel_rows(&other), &no_shapes());
    assert_eq!(backend.state().line_texts(), vec!["x".to_string()]);
    assert_eq!(backend.state().last_target_id, Some(RenderTargetId::new(2)));
}

#[test]
fn pixel_rows_are_drawn_as_rectangles_not_text() {
    let config = window_config(80, 32, 8, 16, (0, 0));
    let snapshot = surface(vec![pixel_row(), text_row(1, 0, "hi", TextStyleDto::plain())], None, None);
    let command = PixelFillRect {
        x_px: 8,
        y_px: 16,
        width_px: 16,
        height_px: 8,
        color: RgbaColorDto { red: 5, green: 6, blue: 7, alpha: 128 },
    };
    let decoding = SurfaceDecoding { pixel_commands: vec![vec![Some(command)], vec![None]], preedit_cursor_cell: None };
    let mut backend = WgpuRendererBackend::new(config);
    backend.render_surface(&snapshot, &decoding, &no_shapes());

    let state = backend.state();
    assert_eq!(state.line_texts(), vec!["hi".to_string()]);
    let rects = state.pixel_rect_quads();
    assert_eq!(rects.len(), 1);
    assert_eq!((rects[0].x_px, rects[0].y_px, rects[0].width_px, rects[0].height_px), (8, 16, 16, 8));
    // The frame starts with the surface background, then the rectangles.
    assert_eq!(state.quads()[1], rects[0]);
}

#[test]
fn draw_row_text_places_glyphs_at_their_columns() {
    let glyph = |x: u32, c: char| WgpuGlyphDrawItem { x, y: 0, c, cell_width: 1, style: TextStyleDto::plain() };
    let row = WgpuDrawRow { y: 0, glyphs: vec![glyph(2, 'a'), glyph(0, 'b'), glyph(2, 'c'), glyph(4, 'd')] };
    assert_eq!(row.text(), "b c d");
    assert_eq!(row.glyphs().len(), 4);
}

#[test]
fn skips_empty_video_surface_rects() {
    let fitted = layout_video_surface_rect(
        VideoSurfaceRect { x_px: 0, y_px: 0, width_px: 0, height_px: 10 },
        10,
        10,
        WgpuRendererConfig::default(),
    );

    assert!(fitted.is_none());
}

#[test]
fn fits_video_frame_inside_surface_without_stretching() {
    let fitted = fit_video_frame_rect(VideoSurfaceRect { x_px: 100, y_px: 50, width_px: 400, height_px: 200 }, 1920, 1080);

    assert_eq!(fitted.x_px, 122);
    assert_eq!(fitted.y_px, 50);
    assert_eq!(fitted.width_px, 356);
    assert_eq!(fitted.height_px, 200);
}

#[test]
fn scales_video_surface_like_pixel_rects_before_ndc_mapping() {
    let scaled = scale_video_surface_rect(
        VideoSurfaceRect { x_px: 80, y_px: 160, width_px: 400, height_px: 320 },
        WgpuRendererConfig {
            cell_width_px: 10,
            cell_height_px: 20,
            content_origin_x: 12,
            content_origin_y: 18,
            content_width_px: 1000,
            content_height_px: 600,
            grid_columns: 100,
            grid_rows: 50,
            blinking_cursor_visible: true,
            ..WgpuRendererConfig::default()
        },
    );

    assert_eq!(scaled.x_px, 112);
    assert_eq!(scaled.y_px, 138);
    assert_eq!(scaled.width_px, 500);
    assert_eq!(scaled.height_px, 240);
}

#[test]
fn video_frames_are_fitted_into_the_scaled_surface() {
    // One virtual pixel per content pixel: the surface moves by the content
    // origin, and a frame of the same aspect ratio fills it.
    let fitted = layout_video_surface_rect(
        VideoSurfaceRect { x_px: 8, y_px: 16, width_px: 80, height_px: 48 },
        160,
        96,
        WgpuRendererConfig {
            cell_width_px: 8,
            cell_height_px: 16,
            content_origin_x: 8,
            content_origin_y: 16,
            content_width_px: 144,
            content_height_px: 80,
            grid_columns: 18,
            grid_rows: 5,
            blinking_cursor_visible: true,
            ..WgpuRendererConfig::default()
        },
    )
    .expect("expected fitted rect");
    assert_eq!(fitted, VideoSurfaceRect { x_px: 16, y_px: 32, width_px: 80, height_px: 48 });
}
