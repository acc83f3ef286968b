use germinal_infra::colors::{RgbColorDto, TextStyleDto};
use germinal_infra::terminal_cells::{
    dirty_rows_of, indexed_color_to_rgb, is_white_space_char, line_text_from_cells, named_color_to_rgb,
    push_run_if_not_blank, style_has_visible_content, style_of_cell, styled_runs_from_cells, StyledCell,
    TerminalDamage, TerminalNamedColor,
};
use germinal_infra::terminal_cells::{visible_lines_and_runs, DisplayCell};

fn cell(col: u32, c: char, style: TextStyleDto) -> StyledCell {
    StyledCell { col, c, style }
}

fn bold() -> TextStyleDto {
    TextStyleDto { bold: true, ..TextStyleDto::plain() }
}

#[test]
fn indexed_colors_follow_the_default_palette() {
    assert_eq!(indexed_color_to_rgb(1, None), Some(RgbColorDto::new(205, 49, 49)));
    assert_eq!(indexed_color_to_rgb(15, None), Some(RgbColorDto::new(255, 255, 255)));
    assert_eq!(indexed_color_to_rgb(16, None), Some(RgbColorDto::new(0, 0, 0)));
    assert_eq!(indexed_color_to_rgb(196, None), Some(RgbColorDto::new(255, 0, 0)));
    assert_eq!(indexed_color_to_rgb(110, None), Some(RgbColorDto::new(135, 175, 215)));
    assert_eq!(indexed_color_to_rgb(232, None), Some(RgbColorDto::new(8, 8, 8)));
    assert_eq!(indexed_color_to_rgb(255, None), Some(RgbColorDto::new(238, 238, 238)));
}

#[test]
fn palette_entries_set_by_the_terminal_win() {
    let custom = RgbColorDto::new(1, 2, 3);
    assert_eq!(indexed_color_to_rgb(196, Some(custom)), Some(custom));
    assert_eq!(named_color_to_rgb(TerminalNamedColor::Red, Some(custom)), Some(custom));
}

#[test]
fn named_colors_follow_the_default_palette() {
    assert_eq!(named_color_to_rgb(TerminalNamedColor::Red, None), Some(RgbColorDto::new(205, 49, 49)));
    assert_eq!(
        named_color_to_rgb(TerminalNamedColor::BrightBlue, None),
        Some(RgbColorDto::new(59, 142, 234))
    );
    assert_eq!(
        named_color_to_rgb(TerminalNamedColor::Foreground, None),
        Some(RgbColorDto::new(229, 229, 229))
    );
    assert_eq!(named_color_to_rgb(TerminalNamedColor::Background, None), Some(RgbColorDto::new(0, 0, 0)));
    assert_eq!(named_color_to_rgb(TerminalNamedColor::Cursor, None), None);
}

#[test]
fn inverse_cells_swap_their_colors() {
    let red = Some(RgbColorDto::new(255, 0, 0));
    let black = Some(RgbColorDto::new(0, 0, 0));
    let style = style_of_cell(red, black, true, true, false, true);
    assert_eq!(style.foreground, black);
    assert_eq!(style.background, red);
    assert!(style.bold);
    assert!(!style.italic);
    assert!(style.underline);
    let plain = style_of_cell(red, black, false, false, false, false);
    assert_eq!(plain.foreground, red);
    assert_eq!(plain.background, black);
}

#[test]
fn full_damage_redraws_every_screen_line() {
    assert_eq!(dirty_rows_of(&TerminalDamage::Full, 4), vec![0, 1, 2, 3]);
    assert_eq!(dirty_rows_of(&TerminalDamage::Full, 0), Vec::<u32>::new());
}

#[test]
fn partial_damage_redraws_neighbouring_lines_once_each() {
    assert_eq!(dirty_rows_of(&TerminalDamage::Partial(vec![0, 5]), 10), vec![0, 1, 4, 5, 6]);
    assert_eq!(dirty_rows_of(&TerminalDamage::Partial(vec![9, 2, 3]), 10), vec![1, 2, 3, 4, 8, 9]);
    assert_eq!(dirty_rows_of(&TerminalDamage::Partial(vec![]), 10), Vec::<u32>::new());
}

#[test]
fn white_space_follows_unicode() {
    assert!(is_white_space_char(' '));
    assert!(is_white_space_char('\t'));
    assert!(is_white_space_char('\u{3000}'));
    assert!(!is_white_space_char('a'));
    assert!(!is_white_space_char('\u{200b}'));
}

#[test]
fn line_text_fills_gaps_and_drops_trailing_blanks() {
    let plain = TextStyleDto::plain();
    let cells = vec![cell(0, 'a', plain), cell(3, 'b', plain), cell(4, ' ', plain), cell(5, ' ', plain)];
    assert_eq!(line_text_from_cells(&cells), "a  b");
    assert_eq!(line_text_from_cells(&[]), "");
}

#[test]
fn line_text_skips_the_column_a_wide_character_covers() {
    let plain = TextStyleDto::plain();
    let cells = vec![cell(0, '漢', plain), cell(2, 'x', plain), cell(5, 'y', plain)];
    assert_eq!(line_text_from_cells(&cells), "漢x  y");
}

#[test]
fn styled_runs_group_contiguous_cells_of_one_style() {
    let plain = TextStyleDto::plain();
    let cells = vec![
        cell(0, 'a', plain),
        cell(1, 'b', plain),
        cell(2, 'c', bold()),
        cell(3, 'd', bold()),
        cell(6, 'e', bold()),
    ];
    let runs = styled_runs_from_cells(7, &cells);
    let summary: Vec<(u32, u32, String, bool)> =
        runs.iter().map(|run| (run.x, run.y, run.text.clone(), run.style.bold)).collect();
    assert_eq!(
        summary,
        vec![
            (0, 7, "ab".to_string(), false),
            (2, 7, "cd".to_string(), true),
            (6, 7, "e".to_string(), true),
        ]
    );
}

#[test]
fn plain_spaces_join_no_run() {
    let plain = TextStyleDto::plain();
    let cells = vec![cell(0, 'a', plain), cell(1, ' ', plain), cell(2, 'b', plain)];
    let runs = styled_runs_from_cells(0, &cells);
    let texts: Vec<(u32, String)> = runs.iter().map(|run| (run.x, run.text.clone())).collect();
    assert_eq!(texts, vec![(0, "a".to_string()), (2, "b".to_string())]);
}

#[test]
fn spaces_with_a_background_make_a_run() {
    let highlighted = TextStyleDto { background: Some(RgbColorDto::new(0, 0, 255)), ..TextStyleDto::plain() };
    let cells = vec![cell(0, ' ', highlighted), cell(1, ' ', highlighted)];
    let runs = styled_runs_from_cells(3, &cells);
    assert_eq!(runs.len(), 1);
    assert_eq!(runs[0].text, "  ");
    assert_eq!(runs[0].x, 0);
    assert_eq!(runs[0].y, 3);
}

#[test]
fn blank_runs_in_an_invisible_style_are_dropped() {
    let plain = TextStyleDto::plain();
    let mut runs = Vec::new();
    push_run_if_not_blank(&mut runs, 0, 0, "", bold());
    push_run_if_not_blank(&mut runs, 0, 0, " \t", plain);
    assert!(runs.is_empty());
    push_run_if_not_blank(&mut runs, 0, 0, "  ", bold());
    push_run_if_not_blank(&mut runs, 4, 1, " x ", plain);
    assert_eq!(runs.len(), 2);
    assert_eq!(runs[1].text, " x ");
    assert_eq!(runs[1].x, 4);
}

#[test]
fn visible_styles_show_on_blank_cells() {
    assert!(!style_has_visible_content(TextStyleDto::plain()));
    assert!(style_has_visible_content(bold()));
    assert!(style_has_visible_content(TextStyleDto { underline: true, ..TextStyleDto::plain() }));
    assert!(style_has_visible_content(TextStyleDto {
        background: Some(RgbColorDto::new(1, 1, 1)),
        ..TextStyleDto::plain()
    }));
    assert!(!style_has_visible_content(TextStyleDto {
        foreground: Some(RgbColorDto::new(1, 1, 1)),
        ..TextStyleDto::plain()
    }));
}

fn display(line: i32, column: usize, c: char, style: TextStyleDto) -> DisplayCell {
    DisplayCell { line, column, c, style, wide_char_spacer: false }
}

#[test]
fn visible_screen_groups_cells_by_row_and_sorts_them_by_column() {
    let plain = TextStyleDto::plain();
    let cells = vec![
        display(1, 2, 'c', plain),
        display(-1, 0, 'h', plain),
        display(0, 1, 'b', bold()),
        display(1, 0, 'x', plain),
        display(0, 0, 'a', bold()),
        DisplayCell { line: 1, column: 1, c: ' ', style: plain, wide_char_spacer: true },
        display(2, 0, ' ', plain),
        display(1, 1, 'y', plain),
    ];
    let (lines, runs) = visible_lines_and_runs(&cells);
    let lines: Vec<(u32, String)> = lines.into_iter().map(|line| (line.row, line.text)).collect();
    assert_eq!(lines, vec![(0, "ab".to_string()), (1, "xyc".to_string())]);
    let runs: Vec<(u32, u32, String, bool)> =
        runs.into_iter().map(|run| (run.x, run.y, run.text, run.style.bold)).collect();
    assert_eq!(runs, vec![(0, 0, "ab".to_string(), true), (0, 1, "xyc".to_string(), false)]);
}

#[test]
fn cells_in_one_column_keep_their_order() {
    let plain = TextStyleDto::plain();
    let cells = vec![display(0, 3, 'q', plain), display(0, 1, 'p', plain), display(0, 1, 'r', plain)];
    let (lines, _) = visible_lines_and_runs(&cells);
    // 'p' and 'r' share column 1 and keep their order; 'q' is at column 3.
    assert_eq!(lines[0].text, " pr q");
}
