use vstd::prelude::*;
use crate::colors::{
    RgbColorDto, TerminalColorTheme, TextStyleDto, contrasting, contrasting_color, mix_rgb, mixed_channel,
};
use crate::ids::{RenderTargetId, SeqNo};
use crate::render_surface::{
    RenderSurfaceRowSnapshot, RenderSurfaceRunSnapshot, RenderSurfaceSnapshot, RowView, RunView, SurfaceView,
    runs_view,
};
use crate::retained_frame::{sat_add_u32, sat_sub_u32};
use crate::decimal::{decimal_text, push_decimal};
use crate::text_shaping::{char_cell_width, terminal_char_cell_width};
use crate::window_schedule::RenderSurfacePlacement;

verus! {

/// The colors of the tab bar: its background, and the text and background
/// of inactive tabs and of the active one.
#[derive(Debug, Clone, Copy, PartialEq, Eq, Structural)]
pub struct TabBarPalette {
    pub background: RgbColorDto,
    pub inactive_foreground: RgbColorDto,
    pub inactive_background: RgbColorDto,
    pub active_background: RgbColorDto,
    pub active_foreground: RgbColorDto,
}

pub open spec fn tab_style(foreground: RgbColorDto, background: RgbColorDto, bold: bool) -> TextStyleDto {
    TextStyleDto { foreground: Some(foreground), background: Some(background), bold, italic: false, underline: false }
}

/// A tab bar style: both colors set, never italic or underlined.
pub fn tab_bar_style(foreground: RgbColorDto, background: RgbColorDto, bold: bool) -> (style: TextStyleDto)
    ensures
        style == tab_style(foreground, background, bold),
{
    TextStyleDto { foreground: Some(foreground), background: Some(background), bold, italic: false, underline: false }
}

/// How strongly the `k`-th strip of the tab bar's texture leans toward the
/// contrasting color, out of 255; the pattern repeats every twelve strips.
pub open spec fn texture_strength(k: int) -> u16 {
    let i = k % 12;
    if i == 0 || i == 2 || i == 6 || i == 9 || i == 11 {
        1
    } else if i == 1 || i == 7 {
        3
    } else if i == 3 || i == 5 || i == 10 {
        2
    } else {
        0
    }
}

/// The `k`-th strip of the tab bar's texture: two cells of blank text from
/// column `2k` (one at the last column of an odd bar), in the background
/// mixed a little toward its contrasting color.
pub open spec fn texture_run(columns: u32, background: RgbColorDto, k: int) -> RunView {
    let x = 2 * k;
    let width = if columns - x < 2 {
        columns - x
    } else {
        2
    };
    let toward = contrasting(background);
    let strength = texture_strength(k);
    let color = RgbColorDto {
        red: mixed_channel(background.red, toward.red, strength, 255),
        green: mixed_channel(background.green, toward.green, strength, 255),
        blue: mixed_channel(background.blue, toward.blue, strength, 255),
    };
    RunView { x: x as u32, text: Seq::new(width as nat, |i: int| ' '), style: tab_style(color, color, false) }
}

/// The strips of texture that fill a tab bar of `columns` cells.
pub open spec fn texture_runs(columns: u32, background: RgbColorDto) -> Seq<RunView> {
    Seq::new(((columns as int + 1) / 2) as nat, |k: int| texture_run(columns, background, k))
}

fn strength_of(k: u32) -> (strength: u16)
    ensures
        strength == texture_strength(k as int),
{
    let i = k % 12;
    if i == 0 || i == 2 || i == 6 || i == 9 || i == 11 {
        1
    } else if i == 1 || i == 7 {
        3
    } else if i == 3 || i == 5 || i == 10 {
        2
    } else {
        0
    }
}

/// The blank strips that texture the tab bar's background.
pub fn tab_bar_texture_runs(columns: u32, palette: TabBarPalette) -> (runs: Vec<RenderSurfaceRunSnapshot>)
    ensures
        runs_view(runs@) == texture_runs(columns, palette.background),
{
    let mut runs: Vec<RenderSurfaceRunSnapshot> = Vec::new();
    let toward = contrasting_color(palette.background);
    let mut x: u32 = 0;
    let mut k: u32 = 0;
    while x < columns
        invariant
            x == 2 * k,
            x <= columns + 1,
            toward == contrasting(palette.background),
            runs_view(runs@) == texture_runs(columns, palette.background).subrange(0, k as int),
            k <= (columns as int + 1) / 2,
        decreases columns - x,
    {
        let width: u32 = if columns - x < 2 {
            columns - x
        } else {
            2
        };
        let color = mix_rgb(palette.background, toward, strength_of(k), 255);
        let mut text = String::new();
        let mut i: u32 = 0;
        while i < width
            invariant
                i <= width,
                text@ == Seq::new(i as nat, |j: int| ' '),
            decreases width - i,
        {
            text.push(' ');
            assert(text@ =~= Seq::new((i + 1) as nat, |j: int| ' '));
            i = i + 1;
        }
        let run = RenderSurfaceRunSnapshot { x, text, style: tab_bar_style(color, color, false) };
        let ghost before = runs@;
        runs.push(run);
        proof {
            assert(run@ == texture_run(columns, palette.background, k as int));
            assert(k as int + 1 <= (columns as int + 1) / 2);
            assert(runs_view(runs@) =~= runs_view(before).push(run@));
            assert(runs_view(runs@) =~= texture_runs(columns, palette.background).subrange(0, k as int + 1));
        }
        if columns - x < 2 {
            x = columns;
            k = k + 1;
            assert(x <= 2 * k);
            proof {
                assert(k as int == (columns as int + 1) / 2);
                assert(runs_view(runs@) =~= texture_runs(columns, palette.background));
            }
            return runs;
        }
        x = x + 2;
        k = k + 1;
    }
    assert(k as int == (columns as int + 1) / 2);
    assert(texture_runs(columns, palette.background).subrange(0, k as int) =~= texture_runs(
        columns,
        palette.background,
    ));
    runs
}

/// How many leading characters of a title fit in `max_width` cells, the
/// width added so far, and whether a character already failed to fit; the
/// width saturates at `u32::MAX`.
pub open spec fn title_fit(title: Seq<char>, max_width: u32, n: int) -> (int, u32, bool)
    decreases n,
{
    if n <= 0 {
        (0, 0, false)
    } else {
        let (count, width, stopped) = title_fit(title, max_width, n - 1);
        if stopped {
            (count, width, true)
        } else {
            let next = sat_add_u32(width as int, char_cell_width(title[n - 1]) as int);
            if next > max_width {
                (count, width, true)
            } else {
                (count + 1, next as u32, false)
            }
        }
    }
}

/// The longest prefix of a title whose cells, added up, fit in `max_width`.
pub open spec fn truncated_title(title: Seq<char>, max_width: u32) -> Seq<char> {
    title.take(title_fit(title, max_width, title.len() as int).0)
}

proof fn lemma_title_fit_count(title: Seq<char>, max_width: u32, n: int)
    requires
        0 <= n,
    ensures
        0 <= title_fit(title, max_width, n).0 <= n,
        !title_fit(title, max_width, n).2 ==> title_fit(title, max_width, n).0 == n,
    decreases n,
{
    if n > 0 {
        lemma_title_fit_count(title, max_width, n - 1);
    }
}

pub fn truncate_title_to_cells(title: &str, max_width: u32) -> (truncated: String)
    ensures
        truncated@ == truncated_title(title@, max_width),
{
    let n = title.unicode_len();
    let mut text = String::new();
    let mut width: u32 = 0;
    let mut stopped = false;
    let mut i: usize = 0;
    while i < n
        invariant
            n == title@.len(),
            i <= n,
            title_fit(title@, max_width, i as int) == (text@.len() as int, width, stopped),
            text@ == title@.take(text@.len() as int),
            text@.len() <= i,
        decreases n - i,
    {
        proof {
            lemma_title_fit_count(title@, max_width, i as int);
        }
        if !stopped {
            let c = title.get_char(i);
            let next = width.saturating_add(terminal_char_cell_width(c));
            if next > max_width {
                stopped = true;
            } else {
                assert(text@.len() == i);
                text.push(c);
                assert(text@ =~= title@.take(i as int + 1));
                width = next;
            }
        }
        i = i + 1;
    }
    text
}

// ---------------------------------------------------------------------------
// Progress shown on a tab.
// ---------------------------------------------------------------------------

/// The progress a terminal reports for its tab: a percentage that is going
/// well, has failed or warns, or work of unknown length.
#[derive(Debug, Clone, Copy, PartialEq, Eq, Structural)]
pub enum TerminalProgress {
    Normal(u8),
    Error(u8),
    Indeterminate,
    Warning(u8),
}

/// How a tab shows its progress: the percentage and a percent sign, after a
/// cross for an error and an exclamation mark for a warning; an ellipsis for
/// work of unknown length.
pub open spec fn progress_label(progress: TerminalProgress) -> Seq<char> {
    match progress {
        TerminalProgress::Normal(p) => decimal_text(p as nat).push('%'),
        TerminalProgress::Error(p) => seq!['\u{d7}'] + decimal_text(p as nat).push('%'),
        TerminalProgress::Indeterminate => seq!['\u{2026}'],
        TerminalProgress::Warning(p) => seq!['!'] + decimal_text(p as nat).push('%'),
    }
}

pub fn tab_progress_label(progress: TerminalProgress) -> (label: String)
    ensures
        label@ == progress_label(progress),
{
    let mut label = String::new();
    match progress {
        TerminalProgress::Normal(p) => {
            push_decimal(&mut label, p as u64);
            label.push('%');
            assert(label@ =~= progress_label(progress));
        },
        TerminalProgress::Error(p) => {
            label.push('\u{d7}');
            push_decimal(&mut label, p as u64);
            label.push('%');
            assert(label@ =~= progress_label(progress));
        },
        TerminalProgress::Indeterminate => {
            label.push('\u{2026}');
            assert(label@ =~= progress_label(progress));
        },
        TerminalProgress::Warning(p) => {
            label.push('!');
            push_decimal(&mut label, p as u64);
            label.push('%');
            assert(label@ =~= progress_label(progress));
        },
    }
    label
}

// ---------------------------------------------------------------------------
// Theme colors of the tab bar.
// ---------------------------------------------------------------------------

/// The color of a progress label: bright cyan while going well, bright red
/// on error, bright magenta for unknown length and bright yellow on warning.
pub open spec fn progress_color(progress: TerminalProgress, theme: TerminalColorTheme) -> RgbColorDto {
    match progress {
        TerminalProgress::Normal(_) => theme.palette@[14],
        TerminalProgress::Error(_) => theme.palette@[9],
        TerminalProgress::Indeterminate => theme.palette@[13],
        TerminalProgress::Warning(_) => theme.palette@[11],
    }
}

pub fn tab_progress_color(progress: TerminalProgress, color_theme: TerminalColorTheme) -> (color: RgbColorDto)
    ensures
        color == progress_color(progress, color_theme),
{
    match progress {
        TerminalProgress::Normal(_) => color_theme.palette[14],
        TerminalProgress::Error(_) => color_theme.palette[9],
        TerminalProgress::Indeterminate => color_theme.palette[13],
        TerminalProgress::Warning(_) => color_theme.palette[11],
    }
}

pub open spec fn palette_of(theme: TerminalColorTheme) -> TabBarPalette {
    TabBarPalette {
        background: theme.tab_bar_background,
        inactive_foreground: theme.inactive_tab_foreground,
        inactive_background: theme.inactive_tab_background,
        active_background: theme.active_tab_background,
        active_foreground: theme.active_tab_foreground,
    }
}

/// The tab bar's colors, as the theme sets them.
pub fn tab_bar_palette(color_theme: TerminalColorTheme) -> (palette: TabBarPalette)
    ensures
        palette == palette_of(color_theme),
{
    TabBarPalette {
        background: color_theme.tab_bar_background,
        inactive_foreground: color_theme.inactive_tab_foreground,
        inactive_background: color_theme.inactive_tab_background,
        active_background: color_theme.active_tab_background,
        active_foreground: color_theme.active_tab_foreground,
    }
}

/// The cells a text takes: the cells of its characters added up, at most
/// `u32::MAX`.
pub open spec fn text_width(text: Seq<char>) -> u32
    decreases text.len(),
{
    if text.len() == 0 {
        0
    } else {
        sat_add_u32(text_width(text.drop_last()) as int, char_cell_width(text.last()) as int) as u32
    }
}

pub fn terminal_text_cell_width(text: &str) -> (width: u32)
    ensures
        width == text_width(text@),
{
    let n = text.unicode_len();
    let mut width: u32 = 0;
    let mut i: usize = 0;
    while i < n
        invariant
            n == text@.len(),
            i <= n,
            width == text_width(text@.take(i as int)),
        decreases n - i,
    {
        let c = text.get_char(i);
        proof {
            assert(text@.take(i as int + 1).drop_last() =~= text@.take(i as int));
        }
        width = width.saturating_add(terminal_char_cell_width(c));
        i = i + 1;
    }
    assert(text@.take(n as int) =~= text@);
    width
}

// ---------------------------------------------------------------------------
// The tab bar surface.
// ---------------------------------------------------------------------------

/// Whether the tab bar sits above or below the panes.
#[derive(Debug, Clone, Copy, PartialEq, Eq, Structural)]
pub enum TabBarPosition {
    Top,
    Bottom,
}

/// The tabs of a window: their titles, the progress each reports, the render
/// target of each, which one is active, and where the bar sits.
#[derive(Debug, Clone, PartialEq, Eq)]
pub struct TabBarSnapshot {
    pub titles: Vec<String>,
    pub progresses: Vec<Option<TerminalProgress>>,
    pub render_target_ids: Vec<RenderTargetId>,
    pub active_tab_index: usize,
    pub position: TabBarPosition,
}

/// The sizes of a window that the tab bar is laid out in: the window and one
/// terminal cell, in pixels.
#[derive(Debug, Clone, Copy, PartialEq, Eq, Structural)]
pub struct TerminalSizeInfo {
    pub window_width_px: u32,
    pub window_height_px: u32,
    pub cell_width_px: u32,
    pub cell_height_px: u32,
}

/// The tab bar, ready to draw: where it sits in the window and the one row
/// of styled runs it shows.
#[derive(Debug, Clone, PartialEq, Eq)]
pub struct WgpuTabBarSurface {
    pub placement: RenderSurfacePlacement,
    pub snapshot: RenderSurfaceSnapshot,
}

pub struct TabBarSurfaceView {
    pub placement: RenderSurfacePlacement,
    pub snapshot: SurfaceView,
}

impl View for WgpuTabBarSurface {
    type V = TabBarSurfaceView;

    open spec fn view(&self) -> TabBarSurfaceView {
        TabBarSurfaceView { placement: self.placement, snapshot: self.snapshot@ }
    }
}

/// The render target that the tab bar is drawn to.
pub const TAB_BAR_RENDER_TARGET_ID: u64 = 0xffff_ffff_ffff_ffff;

/// Columns left free at each end of the bar.
pub const TAB_BAR_OUTER_MARGIN: u32 = 1;

/// Columns between two tabs.
pub const TAB_BAR_TAB_GAP: u32 = 1;

/// Blank columns on each side of a title.
pub const TAB_BAR_TITLE_PADDING: u32 = 2;

/// The rounded edge drawn left of the active tab.
pub const TAB_BAR_LEFT_EDGE: char = '\u{e0b6}';

/// The rounded edge drawn right of the active tab.
pub const TAB_BAR_RIGHT_EDGE: char = '\u{e0b4}';

pub open spec fn titles_view(titles: Seq<String>) -> Seq<Seq<char>> {
    titles.map_values(|title: String| title@)
}

/// The progress of the `i`-th tab, none past the reported ones.
pub open spec fn progress_at(progresses: Seq<Option<TerminalProgress>>, i: int) -> Option<TerminalProgress> {
    if 0 <= i < progresses.len() {
        progresses[i]
    } else {
        None
    }
}

pub open spec fn label_of(progress: Option<TerminalProgress>) -> Seq<char> {
    match progress {
        Some(p) => progress_label(p),
        None => Seq::empty(),
    }
}

pub open spec fn min_u32(a: u32, b: u32) -> u32 {
    if a < b {
        a
    } else {
        b
    }
}

/// The cells a tab needs besides its title: its edges when active, the
/// padding on both sides, its progress label and a space before it, and the
/// gap to the next tab.
pub open spec fn reserved_width(active: bool, progress: Option<TerminalProgress>) -> u32 {
    let progress_width = sat_add_u32(
        text_width(label_of(progress)) as int,
        if progress is Some {
            1
        } else {
            0
        },
    );
    sat_add_u32(
        sat_add_u32(
            sat_add_u32(
                if active {
                    2
                } else {
                    0
                },
                2 * TAB_BAR_TITLE_PADDING,
            ),
            progress_width,
        ),
        TAB_BAR_TAB_GAP as int,
    ) as u32
}

/// One edge of the active tab: a single glyph in the tab's background color
/// over the bar's background.
pub open spec fn edge_run(x: u32, edge: char, palette: TabBarPalette) -> RunView {
    RunView { x, text: seq![edge], style: tab_style(palette.active_background, palette.background, false) }
}

/// The runs of the `i`-th tab when it starts at column `x`, and the column
/// where the next tab starts: nothing when no cell is left for its title;
/// else the left edge if active, two blanks and the title cut to the cells
/// left for it, a space and the progress label if any, two blanks, the right
/// edge if active, then a gap. The active tab is bold on its own colors.
pub open spec fn tab_runs(
    titles: Seq<Seq<char>>,
    progresses: Seq<Option<TerminalProgress>>,
    active_index: int,
    theme: TerminalColorTheme,
    columns: u32,
    max_tab_width: u32,
    i: int,
    x: u32,
) -> (Seq<RunView>, u32) {
    let palette = palette_of(theme);
    let active = i == active_index;
    let progress = progress_at(progresses, i);
    let budget = sat_sub_u32(
        min_u32(max_tab_width, sat_sub_u32(columns as int, x as int) as u32) as int,
        reserved_width(active, progress) as int,
    );
    if budget == 0 {
        (Seq::empty(), x)
    } else {
        let content = seq![' ', ' '] + truncated_title(titles[i], budget as u32);
        let tab_background = if active {
            palette.active_background
        } else {
            palette.inactive_background
        };
        let x1 = if active {
            sat_add_u32(x as int, 1) as u32
        } else {
            x
        };
        let x2 = sat_add_u32(x1 as int, text_width(content) as int) as u32;
        let progress_text = seq![' '] + label_of(progress);
        let x3 = if progress is Some {
            sat_add_u32(x2 as int, text_width(progress_text) as int) as u32
        } else {
            x2
        };
        let x4 = sat_add_u32(x3 as int, TAB_BAR_TITLE_PADDING as int) as u32;
        let x5 = if active {
            sat_add_u32(x4 as int, 1) as u32
        } else {
            x4
        };
        let left = if active {
            seq![edge_run(x, TAB_BAR_LEFT_EDGE, palette)]
        } else {
            Seq::empty()
        };
        let title_run = RunView {
            x: x1,
            text: content,
            style: if active {
                tab_style(palette.active_foreground, palette.active_background, true)
            } else {
                tab_style(palette.inactive_foreground, palette.inactive_background, false)
            },
        };
        let progress_runs = match progress {
            Some(p) => seq![
                RunView { x: x2, text: progress_text, style: tab_style(progress_color(p, theme), tab_background, true) },
            ],
            None => Seq::empty(),
        };
        let pad_run = RunView {
            x: x3,
            text: seq![' ', ' '],
            style: tab_style(
                if active {
                    palette.active_foreground
                } else {
                    palette.inactive_foreground
                },
                tab_background,
                active,
            ),
        };
        let right = if active {
            seq![edge_run(x4, TAB_BAR_RIGHT_EDGE, palette)]
        } else {
            Seq::empty()
        };
        (left + seq![title_run] + progress_runs + seq![pad_run] + right, sat_add_u32(
            x5 as int,
            TAB_BAR_TAB_GAP as int,
        ) as u32)
    }
}

/// The runs of the first `n` tabs, laid out from the outer margin, and the
/// column after them.
pub open spec fn tabs_runs(
    titles: Seq<Seq<char>>,
    progresses: Seq<Option<TerminalProgress>>,
    active_index: int,
    theme: TerminalColorTheme,
    columns: u32,
    max_tab_width: u32,
    n: int,
) -> (Seq<RunView>, u32)
    decreases n,
{
    if n <= 0 {
        (Seq::empty(), min_u32(TAB_BAR_OUTER_MARGIN, columns))
    } else {
        let (before, x) = tabs_runs(titles, progresses, active_index, theme, columns, max_tab_width, n - 1);
        let (runs, next) = tab_runs(titles, progresses, active_index, theme, columns, max_tab_width, n - 1, x);
        (before + runs, next)
    }
}

/// How many cells of the bar the window has: its width in cells, at least 1.
pub open spec fn bar_columns(size: TerminalSizeInfo) -> u32 {
    let cell = if size.cell_width_px < 1 {
        1
    } else {
        size.cell_width_px
    };
    let columns = size.window_width_px / cell;
    if columns < 1 {
        1
    } else {
        columns
    }
}

/// The widest a tab may be: the bar less its outer margins, shared among
/// the tabs, at least 1 (the tab count taken as a `u32`).
pub open spec fn widest_tab(columns: u32, tab_count: int) -> u32 {
    let count = tab_count as u32;
    let shared = if count == 0 {
        0
    } else {
        (sat_sub_u32(columns as int, 2 * TAB_BAR_OUTER_MARGIN) / count as int) as u32
    };
    if shared < 1 {
        1
    } else {
        shared
    }
}

/// The tab bar of a window, when it has at least two tabs and an active one
/// among them, and its window is more than one pixel high: a row one cell
/// high (at most the window's height less one) at the top or the bottom of
/// the window, across its width, showing the textured background and then
/// the tabs.
pub open spec fn tab_bar_surface(
    tab_bar: TabBarSnapshot,
    size: TerminalSizeInfo,
    theme: TerminalColorTheme,
) -> Option<TabBarSurfaceView> {
    let titles = titles_view(tab_bar.titles@);
    let bar_height = min_u32(size.cell_height_px, sat_sub_u32(size.window_height_px as int, 1) as u32);
    if titles.len() < 2 || tab_bar.active_tab_index >= titles.len() || bar_height == 0 {
        None
    } else {
        let columns = bar_columns(size);
        let palette = palette_of(theme);
        let tabs = tabs_runs(
            titles,
            tab_bar.progresses@,
            tab_bar.active_tab_index as int,
            theme,
            columns,
            widest_tab(columns, titles.len() as int),
            titles.len() as int,
        );
        let y_px = match tab_bar.position {
            TabBarPosition::Top => 0,
            TabBarPosition::Bottom => sat_sub_u32(size.window_height_px as int, bar_height as int) as u32,
        };
        Some(
            TabBarSurfaceView {
                placement: RenderSurfacePlacement {
                    target_id: RenderTargetId(TAB_BAR_RENDER_TARGET_ID),
                    x_px: 0,
                    y_px,
                    width_px: size.window_width_px,
                    height_px: bar_height,
                },
                snapshot: SurfaceView {
                    target_id: RenderTargetId(TAB_BAR_RENDER_TARGET_ID),
                    latest_seq: SeqNo(0),
                    default_background: palette.background,
                    rows: seq![RowView { y: 0, runs: texture_runs(columns, palette.background) + tabs.0 }],
                    video_surfaces: Seq::empty(),
                    image_surface_count: 0,
                    dirty_rows: Seq::empty(),
                    cursor: None,
                    ime_preedit: None,
                },
            },
        )
    }
}

/// The colors of a tab's runs: an inactive tab's title, drawn first, is in
/// the theme's inactive tab text color, not bold, and every run of the tab
/// lies on the inactive tab background; the active tab's title, after its
/// left edge, is bold in the active tab's colors.
pub proof fn law_tab_runs_take_their_tab_colors(
    titles: Seq<Seq<char>>,
    progresses: Seq<Option<TerminalProgress>>,
    active_index: int,
    theme: TerminalColorTheme,
    columns: u32,
    max_tab_width: u32,
    i: int,
    x: u32,
)
    requires
        0 <= i < titles.len(),
    ensures
        ({
            let runs = tab_runs(titles, progresses, active_index, theme, columns, max_tab_width, i, x).0;
            i != active_index && runs.len() > 0 ==> {
                &&& runs[0].x == x
                &&& runs[0].text.len() >= 2 && runs[0].text[0] == ' ' && runs[0].text[1] == ' '
                &&& runs[0].style == (TextStyleDto {
                    foreground: Some(theme.inactive_tab_foreground),
                    background: Some(theme.inactive_tab_background),
                    bold: false,
                    italic: false,
                    underline: false,
                })
                &&& runs.last().style.foreground == Some(theme.inactive_tab_foreground)
                &&& forall|k: int|
                    0 <= k < runs.len() ==> (#[trigger] runs[k]).style.background == Some(
                        theme.inactive_tab_background,
                    )
            }
        }),
        ({
            let runs = tab_runs(titles, progresses, active_index, theme, columns, max_tab_width, i, x).0;
            i == active_index && runs.len() > 0 ==> {
                &&& runs.len() >= 2
                &&& runs[1].text.len() >= 2 && runs[1].text[0] == ' ' && runs[1].text[1] == ' '
                &&& runs[1].style == (TextStyleDto {
                    foreground: Some(theme.active_tab_foreground),
                    background: Some(theme.active_tab_background),
                    bold: true,
                    italic: false,
                    underline: false,
                })
            }
        }),
{
    let runs = tab_runs(titles, progresses, active_index, theme, columns, max_tab_width, i, x).0;
    let budget = sat_sub_u32(
        min_u32(max_tab_width, sat_sub_u32(columns as int, x as int) as u32) as int,
        reserved_width(i == active_index, progress_at(progresses, i)) as int,
    );
    if budget != 0 {
        let content = seq![' ', ' '] + truncated_title(titles[i], budget as u32);
        assert(content[0] == ' ' && content[1] == ' ');
    }
}

fn run_of(x: u32, text: String, style: TextStyleDto) -> (run: RenderSurfaceRunSnapshot)
    ensures
        run@ == (RunView { x, text: text@, style }),
{
    RenderSurfaceRunSnapshot { x, text, style }
}

fn one_char(c: char) -> (text: String)
    ensures
        text@ == seq![c],
{
    let mut text = String::new();
    text.push(c);
    assert(text@ =~= seq![c]);
    text
}

fn two_blanks() -> (text: String)
    ensures
        text@ == seq![' ', ' '],
{
    let mut text = String::new();
    text.push(' ');
    text.push(' ');
    assert(text@ =~= seq![' ', ' ']);
    text
}

/// Appends the runs of the `i`-th tab, which starts at column `x`, and
/// returns the column where the next tab starts.
#[verifier::rlimit(40)]
fn push_tab_runs(
    runs: &mut Vec<RenderSurfaceRunSnapshot>,
    tab_bar: &TabBarSnapshot,
    color_theme: TerminalColorTheme,
    palette: TabBarPalette,
    columns: u32,
    max_tab_width: u32,
    i: usize,
    x: u32,
) -> (next: u32)
    requires
        i < tab_bar.titles@.len(),
        palette == palette_of(color_theme),
    ensures
        runs_view(final(runs)@) == runs_view(old(runs)@) + tab_runs(
            titles_view(tab_bar.titles@),
            tab_bar.progresses@,
            tab_bar.active_tab_index as int,
            color_theme,
            columns,
            max_tab_width,
            i as int,
            x,
        ).0,
        next == tab_runs(
            titles_view(tab_bar.titles@),
            tab_bar.progresses@,
            tab_bar.active_tab_index as int,
            color_theme,
            columns,
            max_tab_width,
            i as int,
            x,
        ).1,
{
    let ghost titles = titles_view(tab_bar.titles@);
    let ghost step = tab_runs(
        titles,
        tab_bar.progresses@,
        tab_bar.active_tab_index as int,
        color_theme,
        columns,
        max_tab_width,
        i as int,
        x,
    );
    let active = i == tab_bar.active_tab_index;
    let progress: Option<TerminalProgress> = if i < tab_bar.progresses.len() {
        tab_bar.progresses[i]
    } else {
        None
    };
    let label = match progress {
        Some(p) => tab_progress_label(p),
        None => String::new(),
    };
    assert(label@ == label_of(progress));
    let has_progress: u32 = if progress.is_some() {
        1
    } else {
        0
    };
    let progress_width = terminal_text_cell_width(label.as_str()).saturating_add(has_progress);
    let edge_width: u32 = if active {
        2
    } else {
        0
    };
    let reserved = edge_width.saturating_add(2 * TAB_BAR_TITLE_PADDING).saturating_add(progress_width).saturating_add(
        TAB_BAR_TAB_GAP,
    );
    assert(reserved == reserved_width(active, progress));
    let available = columns.saturating_sub(x);
    let widest = if max_tab_width < available {
        max_tab_width
    } else {
        available
    };
    let title_budget = widest.saturating_sub(reserved);
    if title_budget == 0 {
        assert(runs_view(runs@) =~= runs_view(runs@) + step.0);
        return x;
    }
    let title = truncate_title_to_cells(tab_bar.titles[i].as_str(), title_budget);
    let mut content = two_blanks();
    content.append(title.as_str());
    assert(titles[i as int] == tab_bar.titles@[i as int]@);
    let content_width = terminal_text_cell_width(content.as_str());
    let tab_background = if active {
        palette.active_background
    } else {
        palette.inactive_background
    };
    let ghost start = runs_view(runs@);
    let ghost mut added: Seq<RunView> = Seq::empty();
    let mut at = x;
    if active {
        runs.push(run_of(at, one_char(TAB_BAR_LEFT_EDGE), tab_bar_style(palette.active_background, palette.background, false)));
        proof {
            added = added.push(edge_run(x, TAB_BAR_LEFT_EDGE, palette));
            assert(runs_view(runs@) =~= start + added);
        }
        at = at.saturating_add(1);
    }
    let title_style = if active {
        tab_bar_style(palette.active_foreground, palette.active_background, true)
    } else {
        tab_bar_style(palette.inactive_foreground, palette.inactive_background, false)
    };
    let ghost before = runs_view(runs@);
    runs.push(run_of(at, content, title_style));
    proof {
        added = added.push(RunView { x: at, text: seq![' ', ' '] + truncated_title(titles[i as int], title_budget), style: title_style });
        assert(runs_view(runs@) =~= before.push(runs@.last()@));
        assert(runs_view(runs@) =~= start + added);
    }
    at = at.saturating_add(content_width);
    if let Some(p) = progress {
        let mut text = one_char(' ');
        text.append(label.as_str());
        let text_width_cells = terminal_text_cell_width(text.as_str());
        let ghost text_view = text@;
        let ghost before = runs_view(runs@);
        runs.push(run_of(at, text, tab_bar_style(tab_progress_color(p, color_theme), tab_background, true)));
        proof {
            added = added.push(RunView { x: at, text: text_view, style: tab_style(progress_color(p, color_theme), tab_background, true) });
            assert(runs_view(runs@) =~= before.push(runs@.last()@));
            assert(runs_view(runs@) =~= start + added);
        }
        at = at.saturating_add(text_width_cells);
    }
    let pad_foreground = if active {
        palette.active_foreground
    } else {
        palette.inactive_foreground
    };
    let ghost before = runs_view(runs@);
    runs.push(run_of(at, two_blanks(), tab_bar_style(pad_foreground, tab_background, active)));
    proof {
        added = added.push(RunView { x: at, text: seq![' ', ' '], style: tab_style(pad_foreground, tab_background, active) });
        assert(runs_view(runs@) =~= before.push(runs@.last()@));
        assert(runs_view(runs@) =~= start + added);
    }
    at = at.saturating_add(TAB_BAR_TITLE_PADDING);
    if active {
        let ghost before = runs_view(runs@);
        runs.push(run_of(at, one_char(TAB_BAR_RIGHT_EDGE), tab_bar_style(palette.active_background, palette.background, false)));
        proof {
            added = added.push(edge_run(at, TAB_BAR_RIGHT_EDGE, palette));
            assert(runs_view(runs@) =~= before.push(runs@.last()@));
            assert(runs_view(runs@) =~= start + added);
        }
        at = at.saturating_add(1);
    }
    assert(added =~= step.0);
    at.saturating_add(TAB_BAR_TAB_GAP)
}

/// Lays out the tab bar of a window (see `tab_bar_surface`); none for fewer
/// than two tabs, an active index past the tabs, or a window too low to
/// hold a bar.
pub fn build_tab_bar_surface(
    tab_bar: &TabBarSnapshot,
    window_size_info: TerminalSizeInfo,
    color_theme: TerminalColorTheme,
) -> (surface: Option<WgpuTabBarSurface>)
    ensures
        match surface {
            Some(s) => Some(s@),
            None => None,
        } == tab_bar_surface(*tab_bar, window_size_info, color_theme),
{
    let ghost titles = titles_view(tab_bar.titles@);
    let count = tab_bar.titles.len();
    let window_height = window_size_info.window_height_px;
    let window_width = window_size_info.window_width_px;
    let highest = window_height.saturating_sub(1);
    let bar_height = if window_size_info.cell_height_px < highest {
        window_size_info.cell_height_px
    } else {
        highest
    };
    if count < 2 || tab_bar.active_tab_index >= count || bar_height == 0 {
        return None;
    }
    let y_px = match tab_bar.position {
        TabBarPosition::Top => 0,
        TabBarPosition::Bottom => window_height.saturating_sub(bar_height),
    };
    let cell_width = if window_size_info.cell_width_px < 1 {
        1
    } else {
        window_size_info.cell_width_px
    };
    let fit = window_width / cell_width;
    let columns = if fit < 1 {
        1
    } else {
        fit
    };
    assert(columns == bar_columns(window_size_info));
    let palette = tab_bar_palette(color_theme);
    let tab_count = count as u32;
    let shared = if tab_count == 0 {
        0
    } else {
        columns.saturating_sub(2 * TAB_BAR_OUTER_MARGIN) / tab_count
    };
    let max_tab_width = if shared < 1 {
        1
    } else {
        shared
    };
    assert(max_tab_width == widest_tab(columns, titles.len() as int));
    let mut x: u32 = if TAB_BAR_OUTER_MARGIN < columns {
        TAB_BAR_OUTER_MARGIN
    } else {
        columns
    };
    let mut runs = tab_bar_texture_runs(columns, palette);
    let ghost texture = runs_view(runs@);
    let mut i: usize = 0;
    while i < count
        invariant
            count == tab_bar.titles@.len(),
            titles == titles_view(tab_bar.titles@),
            i <= count,
            palette == palette_of(color_theme),
            texture == texture_runs(columns, palette.background),
            (runs_view(runs@), x) == ({
                let (tabs, next) = tabs_runs(
                    titles,
                    tab_bar.progresses@,
                    tab_bar.active_tab_index as int,
                    color_theme,
                    columns,
                    max_tab_width,
                    i as int,
                );
                (texture + tabs, next)
            }),
        decreases count - i,
    {
        let ghost prior = tabs_runs(
            titles,
            tab_bar.progresses@,
            tab_bar.active_tab_index as int,
            color_theme,
            columns,
            max_tab_width,
            i as int,
        );
        x = push_tab_runs(&mut runs, tab_bar, color_theme, palette, columns, max_tab_width, i, x);
        proof {
            let step = tab_runs(
                titles,
                tab_bar.progresses@,
                tab_bar.active_tab_index as int,
                color_theme,
                columns,
                max_tab_width,
                i as int,
                prior.1,
            );
            assert(texture + prior.0 + step.0 =~= texture + (prior.0 + step.0));
        }
        i = i + 1;
    }
    let ghost all_runs = runs_view(runs@);
    let row = RenderSurfaceRowSnapshot { y: 0, runs };
    let mut rows: Vec<RenderSurfaceRowSnapshot> = Vec::new();
    rows.push(row);
    let snapshot = RenderSurfaceSnapshot {
        target_id: RenderTargetId::new(TAB_BAR_RENDER_TARGET_ID),
        latest_seq: SeqNo::new(0),
        default_background: palette.background,
        rows,
        video_surfaces: Vec::new(),
        image_surface_count: 0,
        dirty_rows: Vec::new(),
        cursor: None,
        ime_preedit: None,
    };
    let surface = WgpuTabBarSurface {
        placement: RenderSurfacePlacement::new(
            RenderTargetId::new(TAB_BAR_RENDER_TARGET_ID),
            0,
            y_px,
            window_width,
            bar_height,
        ),
        snapshot,
    };
    proof {
        let expected = tab_bar_surface(*tab_bar, window_size_info, color_theme).unwrap();
        assert(surface.snapshot@.rows =~= seq![RowView { y: 0, runs: all_runs }]);
        assert(surface.snapshot@.video_surfaces =~= Seq::<crate::render_surface::VideoSurfaceView>::empty());
        assert(surface.snapshot@.dirty_rows =~= Seq::<u32>::empty());
        assert(surface.snapshot@ == expected.snapshot);
    }
    Some(surface)
}

} // verus!
