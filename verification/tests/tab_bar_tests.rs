use germinal_infra::colors::{RgbColorDto, TerminalColorTheme};
use germinal_infra::ids::RenderTargetId;
use germinal_infra::tab_bar::{
    build_tab_bar_surface, tab_bar_palette, tab_bar_style, tab_bar_texture_runs, tab_progress_color,
    tab_progress_label, terminal_text_cell_width, truncate_title_to_cells, TabBarPalette, TabBarPosition,
    TabBarSnapshot, TerminalProgress, TerminalSizeInfo, TAB_BAR_LEFT_EDGE,
    TAB_BAR_RIGHT_EDGE,
};

fn palette(background: RgbColorDto) -> TabBarPalette {
    TabBarPalette {
        background,
        inactive_foreground: RgbColorDto::new(1, 1, 1),
        inactive_background: RgbColorDto::new(2, 2, 2),
        active_background: RgbColorDto::new(3, 3, 3),
        active_foreground: RgbColorDto::new(4, 4, 4),
    }
}

#[test]
fn texture_strips_cover_the_bar_two_cells_at_a_time() {
    let runs = tab_bar_texture_runs(5, palette(RgbColorDto::new(0, 0, 0)));
    let strips: Vec<(u32, String)> = runs.iter().map(|run| (run.x, run.text.clone())).collect();
    assert_eq!(strips, vec![(0, "  ".to_string()), (2, "  ".to_string()), (4, " ".to_string())]);
    // On black the strips lean toward white by 1, 3, then 1 out of 255.
    let shades: Vec<Option<RgbColorDto>> = runs.iter().map(|run| run.style.background).collect();
    assert_eq!(
        shades,
        vec![Some(RgbColorDto::new(1, 1, 1)), Some(RgbColorDto::new(3, 3, 3)), Some(RgbColorDto::new(1, 1, 1))]
    );
    assert!(runs.iter().all(|run| run.style.foreground == run.style.background && !run.style.bold));
    assert!(tab_bar_texture_runs(0, palette(RgbColorDto::new(0, 0, 0))).is_empty());
}

#[test]
fn texture_on_a_light_bar_leans_toward_black() {
    let runs = tab_bar_texture_runs(10, palette(RgbColorDto::new(255, 255, 255)));
    assert_eq!(runs.len(), 5);
    // Strip 4 has no texture; strip 1 leans 3/255 toward black.
    assert_eq!(runs[4].style.background, Some(RgbColorDto::new(255, 255, 255)));
    assert_eq!(runs[1].style.background, Some(RgbColorDto::new(252, 252, 252)));
}

#[test]
fn tab_bar_styles_set_both_colors() {
    let style = tab_bar_style(RgbColorDto::new(9, 9, 9), RgbColorDto::new(8, 8, 8), true);
    assert_eq!(style.foreground, Some(RgbColorDto::new(9, 9, 9)));
    assert_eq!(style.background, Some(RgbColorDto::new(8, 8, 8)));
    assert!(style.bold && !style.italic && !style.underline);
}

#[test]
fn titles_are_cut_to_the_cells_they_may_take() {
    assert_eq!(truncate_title_to_cells("漢字abc", 5), "漢字a");
    assert_eq!(truncate_title_to_cells("漢字abc", 4), "漢字");
    assert_eq!(truncate_title_to_cells("漢字abc", 3), "漢");
    assert_eq!(truncate_title_to_cells("漢字abc", 0), "");
    assert_eq!(truncate_title_to_cells("vim", 80), "vim");
}

fn theme() -> TerminalColorTheme {
    let mut palette = [RgbColorDto::new(0, 0, 0); 16];
    for (index, color) in palette.iter_mut().enumerate() {
        let shade = (index as u8) * 16;
        *color = RgbColorDto::new(shade, 255 - shade, shade / 2);
    }
    TerminalColorTheme {
        palette,
        cursor: RgbColorDto::new(200, 200, 200),
        cursor_text: RgbColorDto::new(10, 10, 10),
        tab_bar_background: RgbColorDto::new(24, 24, 24),
        active_tab_foreground: RgbColorDto::new(255, 255, 255),
        active_tab_background: RgbColorDto::new(60, 60, 60),
        inactive_tab_foreground: RgbColorDto::new(150, 150, 150),
        inactive_tab_background: RgbColorDto::new(40, 40, 40),
    }
}

fn size_info() -> TerminalSizeInfo {
    TerminalSizeInfo { window_width_px: 800, window_height_px: 100, cell_width_px: 8, cell_height_px: 16 }
}

fn edge(c: char) -> String {
    c.to_string()
}

#[test]
fn tab_bar_renders_titles_without_numeric_prefixes() {
    let surface = build_tab_bar_surface(
        &TabBarSnapshot {
            titles: vec!["shell".to_string(), "nvim".to_string()],
            progresses: vec![None, None],
            render_target_ids: vec![RenderTargetId::new(1), RenderTargetId::new(2)],
            active_tab_index: 1,
            position: TabBarPosition::Bottom,
        },
        size_info(),
        theme(),
    )
    .expect("multiple tabs should produce a tab bar");

    assert_eq!(surface.placement.y_px, 84);
    assert_eq!(surface.placement.height_px, 16);
    let runs = &surface.snapshot.rows[0].runs;
    let rendered_text = runs.iter().map(|run| run.text.as_str()).collect::<String>();
    assert!(rendered_text.contains("shell"));
    assert!(rendered_text.contains("nvim"));
    assert!(!rendered_text.contains("1:"));
    assert!(!rendered_text.contains("2:"));
    let left_edge =
        runs.iter().find(|run| run.text == edge(TAB_BAR_LEFT_EDGE)).expect("active tab should have a left edge");
    let active_title = runs.iter().find(|run| run.text.trim() == "nvim").expect("active title should be rendered");
    let right_edge =
        runs.iter().find(|run| run.text == edge(TAB_BAR_RIGHT_EDGE)).expect("active tab should have a right edge");
    assert_eq!(left_edge.x, 11);
    assert!(active_title.style.bold);
    assert!(right_edge.x < 30, "tabs should keep their natural width");
}

#[test]
fn top_tab_bar_starts_at_the_window_origin() {
    let surface = build_tab_bar_surface(
        &TabBarSnapshot {
            titles: vec!["shell".to_string(), "nvim".to_string()],
            progresses: vec![None, None],
            render_target_ids: vec![RenderTargetId::new(1), RenderTargetId::new(2)],
            active_tab_index: 0,
            position: TabBarPosition::Top,
        },
        size_info(),
        theme(),
    )
    .expect("multiple tabs should produce a tab bar");

    assert_eq!(surface.placement.y_px, 0);
}

#[test]
fn tab_bar_uses_kitty_theme_colors() {
    let color_theme = TerminalColorTheme {
        tab_bar_background: RgbColorDto::new(18, 30, 42),
        active_tab_background: RgbColorDto::new(50, 60, 70),
        active_tab_foreground: RgbColorDto::new(240, 241, 242),
        inactive_tab_foreground: RgbColorDto::new(120, 130, 140),
        ..theme()
    };
    let surface = build_tab_bar_surface(
        &TabBarSnapshot {
            titles: vec!["~/one".to_string(), "nvim".to_string()],
            progresses: vec![None, None],
            render_target_ids: vec![RenderTargetId::new(1), RenderTargetId::new(2)],
            active_tab_index: 1,
            position: TabBarPosition::Bottom,
        },
        size_info(),
        color_theme,
    )
    .expect("multiple tabs should produce a themed tab bar");

    assert_eq!(surface.snapshot.default_background, color_theme.tab_bar_background);
    let active_title = surface.snapshot.rows[0]
        .runs
        .iter()
        .find(|run| run.text.trim() == "nvim")
        .expect("active title should be rendered");
    assert_eq!(active_title.style.foreground, Some(color_theme.active_tab_foreground));
    assert_eq!(active_title.style.background, Some(color_theme.active_tab_background));
    assert!(surface.snapshot.rows[0].runs.len() > 10);
}

#[test]
fn tab_bar_renders_themed_progress_states_separately_from_titles() {
    let color_theme = theme();
    let surface = build_tab_bar_surface(
        &TabBarSnapshot {
            titles: vec!["cargo".to_string(), "download".to_string()],
            progresses: vec![Some(TerminalProgress::Normal(42)), Some(TerminalProgress::Warning(7))],
            render_target_ids: vec![RenderTargetId::new(1), RenderTargetId::new(2)],
            active_tab_index: 0,
            position: TabBarPosition::Bottom,
        },
        size_info(),
        color_theme,
    )
    .expect("multiple tabs should produce a tab bar");

    let runs = &surface.snapshot.rows[0].runs;
    let normal = runs.iter().find(|run| run.text.trim() == "42%").expect("normal progress should be rendered");
    let warning = runs.iter().find(|run| run.text.trim() == "!7%").expect("warning progress should be rendered");
    assert_eq!(normal.style.foreground, Some(color_theme.palette[14]));
    assert_eq!(warning.style.foreground, Some(color_theme.palette[11]));
    assert!(runs.iter().any(|run| run.text.trim() == "cargo"));
    assert!(runs.iter().any(|run| run.text.trim() == "download"));
}

fn two_tabs(active_tab_index: usize) -> TabBarSnapshot {
    TabBarSnapshot {
        titles: vec!["a".to_string(), "b".to_string()],
        progresses: vec![],
        render_target_ids: vec![],
        active_tab_index,
        position: TabBarPosition::Bottom,
    }
}

#[test]
fn no_tab_bar_for_a_single_tab_a_missing_active_tab_or_a_flat_window() {
    let single = TabBarSnapshot { titles: vec!["only".to_string()], ..two_tabs(0) };
    assert!(build_tab_bar_surface(&single, size_info(), theme()).is_none());
    assert!(build_tab_bar_surface(&two_tabs(2), size_info(), theme()).is_none());
    let flat = TerminalSizeInfo { window_height_px: 1, ..size_info() };
    assert!(build_tab_bar_surface(&two_tabs(0), flat, theme()).is_none());
    // A window lower than a cell gets a bar one pixel less high than itself.
    let low = TerminalSizeInfo { window_height_px: 10, ..size_info() };
    let surface = build_tab_bar_surface(&two_tabs(0), low, theme()).expect("a low window still has a bar");
    assert_eq!((surface.placement.y_px, surface.placement.height_px), (1, 9));
}

#[test]
fn tab_bar_lays_out_runs_exactly() {
    let surface = build_tab_bar_surface(&two_tabs(1), size_info(), theme()).expect("two tabs");
    assert_eq!(surface.placement.target_id, RenderTargetId::new(u64::MAX));
    assert_eq!(surface.placement.width_px, 800);
    let runs = &surface.snapshot.rows[0].runs;
    // 100 columns of texture in strips of two, then the tabs.
    let tabs: Vec<(u32, String)> = runs[50..].iter().map(|run| (run.x, run.text.clone())).collect();
    assert_eq!(
        tabs,
        vec![
            (1, "  a".to_string()),
            (4, "  ".to_string()),
            (7, edge(TAB_BAR_LEFT_EDGE)),
            (8, "  b".to_string()),
            (11, "  ".to_string()),
            (13, edge(TAB_BAR_RIGHT_EDGE)),
        ]
    );
    assert_eq!(runs[51].style, tab_bar_style(RgbColorDto::new(150, 150, 150), RgbColorDto::new(40, 40, 40), false));
    assert_eq!(runs[53].style, tab_bar_style(RgbColorDto::new(255, 255, 255), RgbColorDto::new(60, 60, 60), true));
}

#[test]
fn narrow_bars_cut_titles_and_drop_tabs_without_room() {
    // 20 columns: each tab may take (20 - 2) / 2 = 9 cells.
    let size = TerminalSizeInfo { window_width_px: 160, ..size_info() };
    let tab_bar = TabBarSnapshot {
        titles: vec!["abcdefgh".to_string(), "xyz".to_string()],
        progresses: vec![None, Some(TerminalProgress::Indeterminate)],
        render_target_ids: vec![],
        active_tab_index: 0,
        position: TabBarPosition::Top,
    };
    let surface = build_tab_bar_surface(&tab_bar, size, theme()).expect("two tabs");
    let texts: Vec<String> = surface.snapshot.rows[0].runs[10..].iter().map(|run| run.text.clone()).collect();
    // The active tab keeps 9 - 2 - 4 - 1 = 2 cells of its title; the other
    // needs 4 + 2 + 1 = 7 cells besides its title and has 9 - 7 = 2 left.
    assert_eq!(texts[1], "  ab");
    assert_eq!(texts[4], "  xy");
    assert_eq!(texts[5], " \u{2026}");
}

#[test]
fn progress_labels_and_colors_follow_the_state() {
    assert_eq!(tab_progress_label(TerminalProgress::Normal(0)), "0%");
    assert_eq!(tab_progress_label(TerminalProgress::Normal(100)), "100%");
    assert_eq!(tab_progress_label(TerminalProgress::Error(5)), "\u{d7}5%");
    assert_eq!(tab_progress_label(TerminalProgress::Warning(255)), "!255%");
    assert_eq!(tab_progress_label(TerminalProgress::Indeterminate), "\u{2026}");
    let color_theme = theme();
    assert_eq!(tab_progress_color(TerminalProgress::Normal(1), color_theme), color_theme.palette[14]);
    assert_eq!(tab_progress_color(TerminalProgress::Error(1), color_theme), color_theme.palette[9]);
    assert_eq!(tab_progress_color(TerminalProgress::Indeterminate, color_theme), color_theme.palette[13]);
    assert_eq!(tab_progress_color(TerminalProgress::Warning(1), color_theme), color_theme.palette[11]);
    let palette = tab_bar_palette(color_theme);
    assert_eq!(palette.background, color_theme.tab_bar_background);
    assert_eq!(palette.inactive_background, color_theme.inactive_tab_background);
}

#[test]
fn text_width_adds_the_cells_of_each_character() {
    assert_eq!(terminal_text_cell_width(""), 0);
    assert_eq!(terminal_text_cell_width("  vim"), 5);
    assert_eq!(terminal_text_cell_width("\u{6f22}\u{5b57}a"), 5);
    assert_eq!(terminal_text_cell_width("e\u{301}"), 1);
}
