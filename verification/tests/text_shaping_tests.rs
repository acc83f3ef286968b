use germinal_infra::colors::TextStyleDto;
use germinal_infra::glyph_key::WgpuTerminalGlyphKey;
use germinal_infra::text_shaping::{
    cursor_fallback_segments, fallback_segments, grapheme_segments, is_code_operator_byte,
    should_shape_ascii_operator_run, standard_ascii_ligature_len, terminal_char_cell_width,
    terminal_grapheme_cell_width, terminal_text_segments, terminal_text_segments_with_ligatures,
};

#[test]
fn keeps_plain_terminal_characters_independent() {
    let segments = terminal_text_segments("ab中", TextStyleDto::plain());

    assert_eq!(segments.len(), 3);
    assert!(segments.iter().all(|segment| !segment.shaped));
    assert_eq!(segments[2].cell_width, 2);
}

#[test]
fn groups_joined_emoji_and_normalizes_composable_marks() {
    let segments = terminal_text_segments("👩\u{200d}💻 e\u{301}", TextStyleDto::plain());

    assert_eq!(segments[0].text, "👩\u{200d}💻");
    assert!(segments[0].shaped);
    assert_eq!(segments[0].cell_width, 2);
    assert_eq!(segments[2].text, "é");
    assert!(!segments[2].shaped);
}

#[test]
fn groups_joining_script_words_for_contextual_shaping() {
    let segments = terminal_text_segments("سلام عالم", TextStyleDto::plain());

    assert_eq!(segments.len(), 3);
    assert_eq!(segments[0].text, "سلام");
    assert!(segments[0].shaped);
    assert_eq!(segments[2].text, "عالم");
    assert!(segments[2].shaped);
}

#[test]
fn groups_indic_words_for_contextual_shaping() {
    let segments = terminal_text_segments("नमस्ते दुनिया", TextStyleDto::plain());

    assert_eq!(segments.len(), 3);
    assert_eq!(segments[0].text, "नमस्ते");
    assert!(segments[0].shaped);
    assert_eq!(segments[2].text, "दुनिया");
    assert!(segments[2].shaped);
}

#[test]
fn groups_programming_operators_for_ligature_shaping() {
    let segments = terminal_text_segments("a != b -> c => d::e", TextStyleDto::plain());
    let shaped = segments
        .iter()
        .filter(|segment| segment.shaped)
        .map(|segment| (segment.text.as_str(), segment.cell_width))
        .collect::<Vec<_>>();

    assert_eq!(shaped, vec![("!=", 2), ("->", 2), ("=>", 2), ("::", 2)]);
    assert!(
        segments
            .iter()
            .filter(|segment| segment.shaped)
            .all(|segment| segment.ligature)
    );
}

#[test]
fn groups_standard_alphabetic_ligatures_without_grouping_identifiers() {
    let text = "office float www name";
    let segments = terminal_text_segments(text, TextStyleDto::plain());
    let shaped = segments
        .iter()
        .filter(|segment| segment.shaped)
        .map(|segment| segment.text.as_str())
        .collect::<Vec<_>>();

    assert_eq!(shaped, vec!["ffi", "fl", "www"]);
    assert!(
        segments
            .iter()
            .filter(|segment| segment.shaped)
            .all(|segment| segment.ligature)
    );
    assert_eq!(
        segments
            .iter()
            .map(|segment| segment.text.as_str())
            .collect::<String>(),
        text
    );
}

#[test]
fn disabling_ligatures_keeps_code_operators_separate_but_preserves_required_shaping() {
    let segments =
        terminal_text_segments_with_ligatures("a != b سلام", TextStyleDto::plain(), false);

    assert!(
        segments
            .iter()
            .filter(|segment| segment.shaped)
            .all(|segment| segment.text == "سلام" && !segment.ligature)
    );
    assert!(
        segments
            .iter()
            .any(|segment| segment.text == "!" && !segment.shaped)
    );
    assert!(
        segments
            .iter()
            .any(|segment| segment.text == "=" && !segment.shaped)
    );
}

#[test]
fn keeps_long_homogeneous_operator_fill_out_of_the_ligature_atlas() {
    let segments = terminal_text_segments("..........", TextStyleDto::plain());

    assert_eq!(segments.len(), 10);
    assert!(segments.iter().all(|segment| !segment.shaped));
}

#[test]
fn long_mixed_operator_runs_are_one_ligature() {
    let segments = terminal_text_segments("<=====>", TextStyleDto::plain());

    assert_eq!(segments.len(), 1);
    assert!(segments[0].shaped && segments[0].ligature);
    assert_eq!(segments[0].cell_width, 7);
}

#[test]
fn a_single_operator_stays_plain() {
    let segments = terminal_text_segments("a=b", TextStyleDto::plain());

    assert_eq!(segments.len(), 3);
    assert!(segments.iter().all(|segment| !segment.shaped));
    assert_eq!(segments[1].glyph_key, WgpuTerminalGlyphKey::styled('=', false, false));
}

#[test]
fn plain_segments_carry_the_run_style() {
    let style = TextStyleDto {
        bold: true,
        italic: true,
        ..TextStyleDto::plain()
    };
    let segments = terminal_text_segments_with_ligatures("ab", style, false);

    assert_eq!(segments[0].glyph_key, WgpuTerminalGlyphKey::styled('a', true, true));
    assert_eq!(segments[1].glyph_key, WgpuTerminalGlyphKey::styled('b', true, true));
}

#[test]
fn shaped_segments_are_named_by_the_fnv_hash_of_their_text() {
    let segments = terminal_text_segments("->", TextStyleDto::plain());
    let mut hash: u64 = 0xcbf2_9ce4_8422_2325;
    for byte in "->".bytes() {
        hash = (hash ^ u64::from(byte)).wrapping_mul(0x0000_0100_0000_01b3);
    }

    assert_eq!(segments.len(), 1);
    assert_eq!(segments[0].glyph_key, WgpuTerminalGlyphKey::cluster(hash, false, false));
}

#[test]
fn non_ascii_text_is_composed_before_segmentation() {
    let segments = terminal_text_segments_with_ligatures("e\u{301}", TextStyleDto::plain(), true);

    assert_eq!(segments.len(), 1);
    assert_eq!(segments[0].text, "\u{e9}");
    assert_eq!(segments[0].glyph_key, WgpuTerminalGlyphKey::styled('\u{e9}', false, false));
}

#[test]
fn grapheme_cell_widths_are_capped_at_two() {
    assert_eq!(terminal_grapheme_cell_width("a"), 1);
    assert_eq!(terminal_grapheme_cell_width("中"), 2);
    assert_eq!(terminal_grapheme_cell_width("中中"), 2);
    assert_eq!(terminal_grapheme_cell_width("\u{301}"), 0);
}

#[test]
fn char_cell_widths_give_control_characters_no_cell() {
    assert_eq!(terminal_char_cell_width('a'), 1);
    assert_eq!(terminal_char_cell_width('中'), 2);
    assert_eq!(terminal_char_cell_width('\u{7}'), 0);
}

#[test]
fn operator_bytes_are_the_ligature_punctuation() {
    for byte in b"!#$%&*+-./:<=>?@\\^|~" {
        assert!(is_code_operator_byte(*byte));
    }
    for byte in b"azAZ09 ,;'\"()[]{}_`" {
        assert!(!is_code_operator_byte(*byte));
    }
}

#[test]
fn ascii_operator_runs_shape_when_short_or_mixed() {
    assert!(!should_shape_ascii_operator_run(b"="));
    assert!(should_shape_ascii_operator_run(b"=="));
    assert!(should_shape_ascii_operator_run(b"===="));
    assert!(!should_shape_ascii_operator_run(b"====="));
    assert!(should_shape_ascii_operator_run(b"====>"));
}

#[test]
fn standard_ligatures_prefer_the_longest_match() {
    assert_eq!(standard_ascii_ligature_len(b"ffi"), Some(3));
    assert_eq!(standard_ascii_ligature_len(b"ffl"), Some(3));
    assert_eq!(standard_ascii_ligature_len(b"ffx"), Some(2));
    assert_eq!(standard_ascii_ligature_len(b"fix"), Some(2));
    assert_eq!(standard_ascii_ligature_len(b"wwwx"), Some(3));
    assert_eq!(standard_ascii_ligature_len(b"ww"), None);
    assert_eq!(standard_ascii_ligature_len(b"f"), None);
}

#[test]
fn cursor_fallback_splits_shaped_segments_into_characters() {
    let segments = terminal_text_segments("->", TextStyleDto::plain());
    let fallback = cursor_fallback_segments(&segments[0]);

    assert_eq!(fallback.len(), 2);
    assert_eq!(fallback[0].text, "-");
    assert_eq!(fallback[1].text, ">");
    assert!(fallback.iter().all(|segment| !segment.shaped && segment.cell_width == 1));
}

#[test]
fn cursor_fallback_of_a_plain_segment_is_empty() {
    let segments = terminal_text_segments("a", TextStyleDto::plain());

    assert!(cursor_fallback_segments(&segments[0]).is_empty());
}

#[test]
fn fallback_segments_skip_zero_width_graphemes() {
    let graphemes = vec!["a".to_string(), "\u{200b}".to_string(), "中".to_string()];
    let widths = vec![1, 0, 2];
    let fallback = fallback_segments(&graphemes, &widths, true, false);

    assert_eq!(fallback.len(), 2);
    assert_eq!(fallback[0].glyph_key, WgpuTerminalGlyphKey::styled('a', true, false));
    assert_eq!(fallback[1].cell_width, 2);
}

#[test]
fn grapheme_segments_follow_the_given_widths() {
    let graphemes = vec!["x".to_string(), "y".to_string()];
    let widths = vec![2, 1];
    let segments = grapheme_segments(&graphemes, &widths, TextStyleDto::plain(), true);

    assert_eq!(segments.len(), 2);
    assert_eq!(segments[0].cell_width, 2);
    assert_eq!(segments[1].cell_width, 1);
}
