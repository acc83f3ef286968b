use germinal_infra::debug_glyph_atlas::WgpuDebugGlyphAtlasBuilder;
use germinal_infra::glyph_key::WgpuTerminalGlyphKey;

#[test]
fn styled_glyph_key_round_trips_bold_and_italic_bits() {
    for key in [
        WgpuTerminalGlyphKey::styled('A', false, false),
        WgpuTerminalGlyphKey::styled('A', true, false),
        WgpuTerminalGlyphKey::styled('A', false, true),
        WgpuTerminalGlyphKey::styled('界', true, true),
    ] {
        assert_eq!(
            WgpuTerminalGlyphKey::from_packed_id(key.packed_id()),
            Some(key)
        );
    }
}

#[test]
fn packed_ids_keep_the_code_point_and_style_bits() {
    assert_eq!(WgpuTerminalGlyphKey::styled('A', false, false).packed_id(), 0x41);
    assert_eq!(WgpuTerminalGlyphKey::styled('A', true, false).packed_id(), 0x0020_0041);
    assert_eq!(WgpuTerminalGlyphKey::styled('A', false, true).packed_id(), 0x0040_0041);
    assert_eq!(WgpuTerminalGlyphKey::cluster(7, true, true).packed_id(), 0x8000_0007);
}

#[test]
fn cluster_ids_do_not_decode_to_characters() {
    let key = WgpuTerminalGlyphKey::cluster(0x1234, false, false);

    assert!(key.is_cluster());
    assert_eq!(key.character(), None);
    assert_eq!(WgpuTerminalGlyphKey::from_packed_id(key.packed_id()), None);
}

#[test]
fn builds_debug_glyph_atlas_for_terminal_text() {
    let atlas = WgpuDebugGlyphAtlasBuilder::new()
        .build_for_texts(&["red green under", "Germinal wgpu terminal smoke 123"]);

    assert!(!atlas.is_empty());
    assert!(atlas.width_px > 0);
    assert!(atlas.height_px > 0);
    assert_eq!(
        atlas.pixel_count(),
        (atlas.width_px * atlas.height_px) as usize
    );
    assert!(atlas.non_zero_pixel_count() > 0);

    assert!(atlas.has_glyph('r'));
    assert!(atlas.has_glyph('e'));
    assert!(atlas.has_glyph('d'));
    assert!(atlas.has_glyph('G'));
    assert!(atlas.has_glyph('1'));
    assert!(atlas.has_glyph(' '));
}

#[test]
fn debug_glyph_entries_are_five_by_seven_cells() {
    let atlas = WgpuDebugGlyphAtlasBuilder::new().build_for_texts(&["red"]);

    for (_, entry) in atlas.entries.iter() {
        assert_eq!(entry.width_px, 5);
        assert_eq!(entry.height_px, 7);
        assert!(entry.advance_px > 0);
    }
}

#[test]
fn empty_input_builds_empty_atlas() {
    let atlas = WgpuDebugGlyphAtlasBuilder::new().build_for_texts(&[""]);

    assert!(atlas.is_empty());
    assert_eq!(atlas.pixel_count(), 0);
    assert_eq!(atlas.non_zero_pixel_count(), 0);
}

#[test]
fn unknown_glyph_gets_fallback_bitmap() {
    let atlas = WgpuDebugGlyphAtlasBuilder::new().build_for_texts(&["你"]);

    assert!(atlas.has_glyph('你'));
    assert!(atlas.non_zero_pixel_count() > 0);
}
