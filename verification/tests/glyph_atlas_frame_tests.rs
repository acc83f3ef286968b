use std::collections::BTreeSet;

use germinal_infra::colors::{RgbColorDto, TextStyleDto};
use germinal_infra::debug_glyph_atlas::WgpuDebugGlyphAtlasBuilder;
use germinal_infra::glyph_atlas_frame::{collect_glyphs, WgpuTerminalGlyphAtlasFrameBuilder};
use germinal_infra::glyph_atlas_texture::{
    rgba_pixels_from_atlas, WgpuTerminalAtlasTextureFormat, WgpuTerminalFilterMode,
    WgpuTerminalGlyphAtlasTextureFactory, WgpuTerminalGlyphAtlasTextureSpec,
    WgpuTerminalTextureDimension,
};
use germinal_infra::glyph_atlas::WgpuTerminalGlyphAtlas;
use germinal_infra::glyph_key::WgpuTerminalGlyphKey;
use germinal_infra::ids::{RenderTargetId, SeqNo};
use germinal_infra::pipeline_specs::WgpuTerminalGlyphAtlasSourceKind;
use germinal_infra::render_surface::{
    RenderSurfaceImePreeditSnapshot, RenderSurfaceRowSnapshot, RenderSurfaceRunSnapshot,
    RenderSurfaceSnapshot,
};

fn snapshot(target_id: RenderTargetId, seq: u64, texts: &[&str]) -> RenderSurfaceSnapshot {
    RenderSurfaceSnapshot {
        target_id,
        latest_seq: SeqNo::new(seq),
        default_background: RgbColorDto::new(0, 0, 0),
        rows: vec![RenderSurfaceRowSnapshot {
            y: 0,
            runs: texts
                .iter()
                .enumerate()
                .map(|(i, text)| RenderSurfaceRunSnapshot {
                    x: 4 * i as u32,
                    text: text.to_string(),
                    style: TextStyleDto::plain(),
                })
                .collect(),
        }],
        video_surfaces: vec![],
        image_surface_count: 0,
        dirty_rows: vec![0],
        cursor: None,
        ime_preedit: None,
    }
}

#[test]
fn preedit_characters_are_collected_for_the_glyph_atlas() {
    let mut snapshot = RenderSurfaceSnapshot {
        target_id: RenderTargetId::new(1),
        latest_seq: SeqNo::new(1),
        default_background: RgbColorDto::new(0, 0, 0),
        rows: vec![],
        video_surfaces: vec![],
        image_surface_count: 0,
        dirty_rows: vec![],
        cursor: None,
        ime_preedit: None,
    };
    snapshot.ime_preedit = Some(RenderSurfaceImePreeditSnapshot {
        text: "拼".to_string(),
        cursor_range: Some((3, 3)),
    });

    assert!(collect_glyphs(&snapshot).contains(&WgpuTerminalGlyphKey::new('拼', false)));
}

#[test]
fn collected_glyphs_are_the_sorted_set_of_styled_characters() {
    let mut snapshot = snapshot(RenderTargetId::new(1), 1, &["bab"]);
    snapshot.rows[0].runs.push(RenderSurfaceRunSnapshot {
        x: 3,
        text: "a".to_string(),
        style: TextStyleDto {
            bold: true,
            ..TextStyleDto::plain()
        },
    });

    let glyphs = collect_glyphs(&snapshot);
    let expected: BTreeSet<WgpuTerminalGlyphKey> = [
        WgpuTerminalGlyphKey::styled('b', false, false),
        WgpuTerminalGlyphKey::styled('a', false, false),
        WgpuTerminalGlyphKey::styled('a', true, false),
    ]
    .into_iter()
    .collect();

    assert_eq!(glyphs, expected.into_iter().collect::<Vec<_>>());
}

#[test]
fn builds_debug_glyph_atlas_frame_from_surface_snapshot() {
    let target_id = RenderTargetId::new(1);
    let snapshot = snapshot(target_id, 9, &["red", "green"]);

    let mut builder = WgpuTerminalGlyphAtlasFrameBuilder::debug_5x7();
    let frame = builder.build(&snapshot);

    assert_eq!(frame.target_id, target_id);
    assert_eq!(frame.seq, SeqNo::new(9));
    assert_eq!(frame.source, WgpuTerminalGlyphAtlasSourceKind::Debug5x7);
    assert!(!frame.cache_hit);
    assert_eq!(frame.run_count, 2);
    assert_eq!(frame.char_count, 8);
    assert!(frame.glyph_count() > 0);
    assert!(frame.atlas.has_glyph('r'));
    assert!(frame.atlas.has_glyph('e'));
    assert!(frame.atlas.has_glyph('d'));
    assert!(frame.atlas.has_glyph('g'));
    assert!(frame.has_upload_work());
    assert!(frame.atlas_width_px() > 0);
    assert!(frame.atlas_height_px() > 0);
    assert_eq!(
        frame.upload_byte_len(),
        (frame.atlas_width_px() * frame.atlas_height_px() * 4) as usize
    );
}

#[test]
fn second_build_with_same_chars_hits_cache() {
    let snapshot = snapshot(RenderTargetId::new(1), 9, &["red"]);

    let mut builder = WgpuTerminalGlyphAtlasFrameBuilder::debug_5x7();
    let first = builder.build(&snapshot);
    let second = builder.build(&snapshot);

    assert!(!first.cache_hit);
    assert!(second.cache_hit);
    assert_eq!(first.atlas, second.atlas);
}

#[test]
fn changed_chars_miss_cache() {
    let target_id = RenderTargetId::new(1);
    let red_snapshot = snapshot(target_id, 1, &["red"]);
    let blue_snapshot = snapshot(target_id, 2, &["blue"]);

    let mut builder = WgpuTerminalGlyphAtlasFrameBuilder::debug_5x7();
    let first = builder.build(&red_snapshot);
    let second = builder.build(&blue_snapshot);

    assert!(!first.cache_hit);
    assert!(!second.cache_hit);
}

#[test]
fn different_targets_keep_independent_cache_entries() {
    let first_target = snapshot(RenderTargetId::new(1), 1, &["red"]);
    let second_target = snapshot(RenderTargetId::new(2), 1, &["blue"]);

    let mut builder = WgpuTerminalGlyphAtlasFrameBuilder::debug_5x7();

    assert!(!builder.build(&first_target).cache_hit);
    assert!(!builder.build(&second_target).cache_hit);
    assert!(builder.build(&first_target).cache_hit);
    assert!(builder.build(&second_target).cache_hit);
}

#[test]
fn removing_a_target_invalidates_only_its_cache_entry() {
    let first_target = snapshot(RenderTargetId::new(1), 1, &["red"]);
    let second_target = snapshot(RenderTargetId::new(2), 1, &["blue"]);

    let mut builder = WgpuTerminalGlyphAtlasFrameBuilder::debug_5x7();

    assert!(!builder.build(&first_target).cache_hit);
    assert!(!builder.build(&second_target).cache_hit);
    assert!(builder.remove_render_target(first_target.target_id));
    assert!(!builder.remove_render_target(first_target.target_id));
    assert!(!builder.build(&first_target).cache_hit);
    assert!(builder.build(&second_target).cache_hit);
}

#[test]
fn changed_chars_replace_cache_instead_of_growing_union() {
    let target_id = RenderTargetId::new(1);
    let red_snapshot = snapshot(target_id, 1, &["red"]);
    let blue_snapshot = snapshot(target_id, 2, &["blue"]);

    let mut builder = WgpuTerminalGlyphAtlasFrameBuilder::debug_5x7();
    let _ = builder.build(&red_snapshot);
    let blue = builder.build(&blue_snapshot);

    assert!(!blue.cache_hit);
    assert!(blue.atlas.has_glyph('b'));
    assert!(blue.atlas.has_glyph('l'));
    assert!(!blue.atlas.has_glyph('r'));
}

#[test]
fn empty_surface_snapshot_can_hit_cache_on_second_build() {
    let target_id = RenderTargetId::new(1);
    let snapshot = RenderSurfaceSnapshot {
        target_id,
        latest_seq: SeqNo::new(1),
        default_background: RgbColorDto::new(0, 0, 0),
        rows: Vec::new(),
        video_surfaces: vec![],
        image_surface_count: 0,
        dirty_rows: Vec::new(),
        cursor: None,
        ime_preedit: None,
    };

    let mut builder = WgpuTerminalGlyphAtlasFrameBuilder::new();
    let first = builder.build(&snapshot);
    let second = builder.build(&snapshot);

    assert_eq!(first.target_id, target_id);
    assert_eq!(first.seq, SeqNo::new(1));
    assert_eq!(first.source, WgpuTerminalGlyphAtlasSourceKind::Debug5x7);
    assert_eq!(first.run_count, 0);
    assert_eq!(first.char_count, 0);
    assert_eq!(first.glyph_count(), 0);
    assert_eq!(first.upload_byte_len(), 0);
    assert!(!first.has_upload_work());
    assert!(!first.cache_hit);
    assert!(second.cache_hit);
}

#[test]
fn source_kind_reports_debug_by_default() {
    let builder = WgpuTerminalGlyphAtlasFrameBuilder::new();

    assert_eq!(builder.source_kind(), WgpuTerminalGlyphAtlasSourceKind::Debug5x7);
    assert!(!builder.ligatures());
    assert!(builder.underline_metrics().is_none());
    assert!(builder.strikeout_metrics().is_none());
}

#[test]
fn builds_upload_bytes_from_debug_glyph_atlas() {
    let atlas = WgpuDebugGlyphAtlasBuilder::new().build_for_texts(&["red"]);

    let factory = WgpuTerminalGlyphAtlasTextureFactory::new();

    let upload_bytes = factory
        .build_upload_bytes(&atlas)
        .expect("upload bytes should exist");

    assert_eq!(upload_bytes.width_px, atlas.width_px);
    assert_eq!(upload_bytes.height_px, atlas.height_px);
    assert_eq!(upload_bytes.format, WgpuTerminalAtlasTextureFormat::Rgba8UnormSrgb);
    assert_eq!(
        upload_bytes.byte_len(),
        (atlas.width_px * atlas.height_px * 4) as usize
    );
    assert_eq!(
        upload_bytes.expected_byte_len(),
        (atlas.width_px * atlas.height_px * 4) as usize
    );
    assert_eq!(upload_bytes.bytes_per_row(), atlas.width_px * 4);
    assert_eq!(upload_bytes.rows_per_image(), atlas.height_px);
    assert!(upload_bytes.is_tightly_packed());
    assert!(!upload_bytes.is_empty());
}

#[test]
fn empty_atlas_has_no_upload_bytes() {
    let atlas = WgpuDebugGlyphAtlasBuilder::new().build_for_texts(&[""]);

    let factory = WgpuTerminalGlyphAtlasTextureFactory::new();

    assert!(factory.build_upload_bytes(&atlas).is_none());
}

#[test]
fn texture_spec_matches_rgba_atlas() {
    let spec = WgpuTerminalGlyphAtlasTextureSpec::new();

    assert_eq!(spec.format, WgpuTerminalAtlasTextureFormat::Rgba8UnormSrgb);
    assert_eq!(spec.dimension, WgpuTerminalTextureDimension::D2);
    assert_eq!(spec.mip_level_count, 1);
    assert_eq!(spec.sample_count, 1);
    assert!(spec.usage.texture_binding);
    assert!(spec.usage.copy_dst);
    assert_eq!(spec.sampler_mag_filter, WgpuTerminalFilterMode::Nearest);
    assert_eq!(spec.sampler_min_filter, WgpuTerminalFilterMode::Nearest);
}

#[test]
fn alpha_atlases_expand_to_black_rgba_texels() {
    let atlas = WgpuTerminalGlyphAtlas {
        width_px: 2,
        height_px: 1,
        pixels: vec![7, 9],
        entries: Vec::new(),
    };

    assert_eq!(rgba_pixels_from_atlas(&atlas), vec![0, 0, 0, 7, 0, 0, 0, 9]);
}

#[test]
fn odd_sized_atlas_pixels_are_copied_into_zeroed_texels() {
    let atlas = WgpuTerminalGlyphAtlas {
        width_px: 2,
        height_px: 1,
        pixels: vec![1, 2, 3],
        entries: Vec::new(),
    };

    assert_eq!(rgba_pixels_from_atlas(&atlas), vec![1, 2, 3, 0, 0, 0, 0, 0]);
}

fn plain_run_row(y: u32, text: &str, bold: bool) -> germinal_infra::render_surface::RenderSurfaceRowSnapshot {
    germinal_infra::render_surface::RenderSurfaceRowSnapshot {
        y,
        runs: vec![germinal_infra::render_surface::RenderSurfaceRunSnapshot {
            x: 0,
            text: text.to_string(),
            style: germinal_infra::colors::TextStyleDto { bold, ..germinal_infra::colors::TextStyleDto::plain() },
        }],
    }
}

fn segment_surface(
    rows: Vec<germinal_infra::render_surface::RenderSurfaceRowSnapshot>,
    preedit: Option<&str>,
) -> germinal_infra::render_surface::RenderSurfaceSnapshot {
    germinal_infra::render_surface::RenderSurfaceSnapshot {
        target_id: germinal_infra::ids::RenderTargetId::new(1),
        latest_seq: germinal_infra::ids::SeqNo::new(1),
        default_background: germinal_infra::colors::RgbColorDto::new(0, 0, 0),
        rows,
        video_surfaces: vec![],
        image_surface_count: 0,
        dirty_rows: vec![],
        cursor: None,
        ime_preedit: preedit.map(|text| germinal_infra::render_surface::RenderSurfaceImePreeditSnapshot {
            text: text.to_string(),
            cursor_range: None,
        }),
    }
}

#[test]
fn text_segments_are_collected_once_per_key_in_key_order() {
    let snapshot = segment_surface(vec![plain_run_row(0, "ba", false), plain_run_row(1, "ab", true)], None);
    let segments = germinal_infra::atlas_segments::collect_text_segments(&snapshot, true);
    let summary: Vec<(String, bool)> = segments.iter().map(|s| (s.text.clone(), s.glyph_key.bold)).collect();
    assert_eq!(
        summary,
        vec![
            ("a".to_string(), false),
            ("a".to_string(), true),
            ("b".to_string(), false),
            ("b".to_string(), true),
        ]
    );
}

#[test]
fn shaped_segments_bring_their_cursor_stand_ins_and_composed_text_is_plain() {
    let snapshot = segment_surface(vec![plain_run_row(0, "a=>", false)], Some("z"));
    let segments = germinal_infra::atlas_segments::collect_text_segments(&snapshot, true);
    let texts: Vec<(String, bool)> = segments.iter().map(|s| (s.text.clone(), s.shaped)).collect();
    assert_eq!(
        texts,
        vec![
            ("=".to_string(), false),
            (">".to_string(), false),
            ("a".to_string(), false),
            ("z".to_string(), false),
            ("=>".to_string(), true),
        ]
    );
    let without_ligatures = germinal_infra::atlas_segments::collect_text_segments(&snapshot, false);
    assert!(without_ligatures.iter().all(|s| !s.shaped));
    assert_eq!(without_ligatures.len(), 4);
}
