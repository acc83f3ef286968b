use germinal_infra::glyph_key::WgpuTerminalGlyphKey;
use germinal_infra::glyph_pixels::{
    empty_cluster_glyph, glyph_rgba_pixels, rasterized_cluster_from_pixels, GlyphBitmapBuffer,
};
use germinal_infra::text_shaping::TerminalTextSegment;

fn segment(text: &str, cell_width: u32) -> TerminalTextSegment {
    TerminalTextSegment {
        text: text.to_string(),
        cell_width,
        glyph_key: WgpuTerminalGlyphKey::cluster(42, false, false),
        shaped: true,
        ligature: false,
    }
}

#[test]
fn rgb_bitmaps_become_black_with_their_strongest_channel_as_alpha() {
    let buffer = GlyphBitmapBuffer::Rgb(vec![10, 20, 30, 40, 60, 50, 1]);
    assert_eq!(glyph_rgba_pixels(&buffer, 2, 1, false), vec![0, 0, 0, 30, 0, 0, 0, 60]);
}

#[test]
fn rgb_color_bitmaps_keep_their_colors_and_become_opaque() {
    let buffer = GlyphBitmapBuffer::Rgb(vec![10, 20, 30, 40, 50, 60]);
    assert_eq!(glyph_rgba_pixels(&buffer, 2, 1, true), vec![10, 20, 30, 255, 40, 50, 60, 255]);
}

#[test]
fn rgba_bitmaps_take_alpha_from_alpha_or_the_strongest_channel() {
    let buffer = GlyphBitmapBuffer::Rgba(vec![1, 2, 3, 4, 90, 8, 7, 20]);
    assert_eq!(glyph_rgba_pixels(&buffer, 2, 1, false), vec![0, 0, 0, 4, 0, 0, 0, 90]);
    assert_eq!(glyph_rgba_pixels(&buffer, 2, 1, true), vec![1, 2, 3, 4, 90, 8, 7, 20]);
}

#[test]
fn bitmap_pixels_stop_at_the_glyph_area() {
    let buffer = GlyphBitmapBuffer::Rgba(vec![1, 2, 3, 4, 9, 8, 7, 200]);
    assert_eq!(glyph_rgba_pixels(&buffer, 1, 1, false), vec![0, 0, 0, 4]);
    assert_eq!(glyph_rgba_pixels(&buffer, 0, 5, false), Vec::<u8>::new());
    assert_eq!(glyph_rgba_pixels(&buffer, 5, 0, true), Vec::<u8>::new());
}

#[test]
fn a_cluster_that_drew_nothing_is_one_transparent_pixel() {
    let glyph = empty_cluster_glyph(&segment("ab", 2), 9);
    assert_eq!(glyph.key, WgpuTerminalGlyphKey::cluster(42, false, false));
    assert_eq!(glyph.cell_width, 2);
    assert_eq!((glyph.width_px, glyph.height_px), (1, 1));
    assert_eq!(glyph.advance_px, 18);
    assert_eq!(glyph.pixels, vec![0, 0, 0, 0]);
    assert!(!glyph.is_color);
    assert_eq!(glyph.direct_draw_offset, Some((0, 0)));

    let zero_width = empty_cluster_glyph(&segment("\u{200b}", 0), 9);
    assert_eq!(zero_width.cell_width, 1);
    assert_eq!(zero_width.advance_px, 9);

    let from_pixels = rasterized_cluster_from_pixels(&segment("ab", 2), 9, 18, true, Vec::new());
    assert_eq!(from_pixels, glyph);
}

#[test]
fn drawn_pixels_fill_their_bounding_box() {
    let drawn = vec![(2, 3, [10, 20, 30, 255]), (3, 4, [0, 0, 0, 128])];
    let glyph = rasterized_cluster_from_pixels(&segment("=>", 2), 9, 18, false, drawn);
    assert_eq!((glyph.width_px, glyph.height_px), (2, 2));
    assert_eq!(glyph.left_px, 2);
    assert_eq!(glyph.top_px, 0);
    assert_eq!(glyph.advance_px, 18);
    assert_eq!(glyph.pixels, vec![0, 0, 0, 255, 0, 0, 0, 0, 0, 0, 0, 0, 0, 0, 0, 128]);
    assert_eq!(glyph.direct_draw_offset, Some((2, 3)));
    assert!(!glyph.is_color);
}

#[test]
fn overlapping_pixels_blend_in_order() {
    let drawn = vec![(0, 0, [9, 9, 9, 128]), (0, 0, [0, 0, 0, 128])];
    let glyph = rasterized_cluster_from_pixels(&segment("fi", 1), 8, 16, false, drawn);
    assert_eq!(glyph.pixels, vec![0, 0, 0, 191]);

    let color = vec![(1, 1, [200, 100, 50, 255])];
    let glyph = rasterized_cluster_from_pixels(&segment("fi", 1), 8, 16, true, color);
    assert_eq!(glyph.pixels, vec![200, 100, 50, 255]);
    assert!(glyph.is_color);
}

#[test]
fn the_draw_offset_keeps_the_top_inside_the_cell() {
    let above = vec![(-1, -5, [0, 0, 0, 255])];
    let glyph = rasterized_cluster_from_pixels(&segment("x", 1), 8, 16, false, above);
    assert_eq!(glyph.direct_draw_offset, Some((-1, 0)));
    let below = vec![(0, 40, [0, 0, 0, 255])];
    let glyph = rasterized_cluster_from_pixels(&segment("x", 1), 8, 16, false, below);
    assert_eq!(glyph.direct_draw_offset, Some((0, 16)));
}
