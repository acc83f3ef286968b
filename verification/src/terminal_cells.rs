use vstd::prelude::*;
use crate::colors::{RgbColorDto, TextStyleDto, ansi_256_cube_component};
use crate::snapshot_frame_plan::{TerminalLineSnapshot, TerminalTextRunSnapshot};
use crate::text_shaping::{char_cell_width, terminal_char_cell_width};

verus! {

/// Calls std's `String::push`, which appends one character to a string.
pub assume_specification[ String::push ](string: &mut String, ch: char)
    ensures
        final(string)@ == old(string)@.push(ch),
;

// ---------------------------------------------------------------------------
// Colors.
// ---------------------------------------------------------------------------

pub open spec fn rgb(red: u8, green: u8, blue: u8) -> RgbColorDto {
    RgbColorDto { red, green, blue }
}

/// The 16 ANSI colors of the default palette, by index.
pub open spec fn ansi_color(index: int) -> RgbColorDto {
    if index == 0 {
        rgb(0, 0, 0)
    } else if index == 1 {
        rgb(205, 49, 49)
    } else if index == 2 {
        rgb(13, 188, 121)
    } else if index == 3 {
        rgb(229, 229, 16)
    } else if index == 4 {
        rgb(36, 114, 200)
    } else if index == 5 {
        rgb(188, 63, 188)
    } else if index == 6 {
        rgb(17, 168, 205)
    } else if index == 7 {
        rgb(229, 229, 229)
    } else if index == 8 {
        rgb(102, 102, 102)
    } else if index == 9 {
        rgb(241, 76, 76)
    } else if index == 10 {
        rgb(35, 209, 139)
    } else if index == 11 {
        rgb(245, 245, 67)
    } else if index == 12 {
        rgb(59, 142, 234)
    } else if index == 13 {
        rgb(214, 112, 214)
    } else if index == 14 {
        rgb(41, 184, 219)
    } else {
        rgb(255, 255, 255)
    }
}

pub open spec fn cube_level(level: int) -> u8 {
    if level == 0 {
        0
    } else {
        (55 + 40 * level) as u8
    }
}

/// The default color of a 256-color palette index: the 16 ANSI colors, the
/// 6x6x6 color cube, then 24 grays from 8 in steps of 10.
pub open spec fn indexed_color(index: u8) -> RgbColorDto {
    if index < 16 {
        ansi_color(index as int)
    } else if index < 232 {
        let cube = index - 16;
        rgb(cube_level(cube / 36), cube_level((cube % 36) / 6), cube_level(cube % 6))
    } else {
        let level = (8 + 10 * (index - 232)) as u8;
        rgb(level, level, level)
    }
}

/// The color of a palette index: the terminal's own when it set one, else
/// the default.
pub fn indexed_color_to_rgb(index: u8, palette_entry: Option<RgbColorDto>) -> (color: Option<RgbColorDto>)
    ensures
        color == Some(
            match palette_entry {
                Some(c) => c,
                None => indexed_color(index),
            },
        ),
{
    if let Some(c) = palette_entry {
        return Some(c);
    }
    let color = match index {
        0 => RgbColorDto::new(0, 0, 0),
        1 => RgbColorDto::new(205, 49, 49),
        2 => RgbColorDto::new(13, 188, 121),
        3 => RgbColorDto::new(229, 229, 16),
        4 => RgbColorDto::new(36, 114, 200),
        5 => RgbColorDto::new(188, 63, 188),
        6 => RgbColorDto::new(17, 168, 205),
        7 => RgbColorDto::new(229, 229, 229),
        8 => RgbColorDto::new(102, 102, 102),
        9 => RgbColorDto::new(241, 76, 76),
        10 => RgbColorDto::new(35, 209, 139),
        11 => RgbColorDto::new(245, 245, 67),
        12 => RgbColorDto::new(59, 142, 234),
        13 => RgbColorDto::new(214, 112, 214),
        14 => RgbColorDto::new(41, 184, 219),
        15 => RgbColorDto::new(255, 255, 255),
        16..=231 => {
            let cube_index = index - 16;
            let red_level = cube_index / 36;
            let green_level = (cube_index % 36) / 6;
            let blue_level = cube_index % 6;
            RgbColorDto::new(
                ansi_256_cube_component(red_level),
                ansi_256_cube_component(green_level),
                ansi_256_cube_component(blue_level),
            )
        },
        _ => {
            let level = 8 + 10 * (index - 232);
            RgbColorDto::new(level, level, level)
        },
    };
    Some(color)
}

/// The named colors of a terminal palette.
#[derive(Debug, Clone, Copy, PartialEq, Eq, Structural)]
pub enum TerminalNamedColor {
    Black,
    Red,
    Green,
    Yellow,
    Blue,
    Magenta,
    Cyan,
    White,
    BrightBlack,
    BrightRed,
    BrightGreen,
    BrightYellow,
    BrightBlue,
    BrightMagenta,
    BrightCyan,
    BrightWhite,
    Foreground,
    Background,
    Cursor,
    DimBlack,
    DimRed,
    DimGreen,
    DimYellow,
    DimBlue,
    DimMagenta,
    DimCyan,
    DimWhite,
    BrightForeground,
    DimForeground,
}

/// The default of a named color: the 16 ANSI colors, light gray text on
/// black; the others have none.
pub open spec fn named_color(color: TerminalNamedColor) -> Option<RgbColorDto> {
    match color {
        TerminalNamedColor::Black => Some(ansi_color(0)),
        TerminalNamedColor::Red => Some(ansi_color(1)),
        TerminalNamedColor::Green => Some(ansi_color(2)),
        TerminalNamedColor::Yellow => Some(ansi_color(3)),
        TerminalNamedColor::Blue => Some(ansi_color(4)),
        TerminalNamedColor::Magenta => Some(ansi_color(5)),
        TerminalNamedColor::Cyan => Some(ansi_color(6)),
        TerminalNamedColor::White => Some(ansi_color(7)),
        TerminalNamedColor::BrightBlack => Some(ansi_color(8)),
        TerminalNamedColor::BrightRed => Some(ansi_color(9)),
        TerminalNamedColor::BrightGreen => Some(ansi_color(10)),
        TerminalNamedColor::BrightYellow => Some(ansi_color(11)),
        TerminalNamedColor::BrightBlue => Some(ansi_color(12)),
        TerminalNamedColor::BrightMagenta => Some(ansi_color(13)),
        TerminalNamedColor::BrightCyan => Some(ansi_color(14)),
        TerminalNamedColor::BrightWhite => Some(ansi_color(15)),
        TerminalNamedColor::Foreground => Some(rgb(229, 229, 229)),
        TerminalNamedColor::Background => Some(rgb(0, 0, 0)),
        _ => None,
    }
}

/// The color of a named color: the terminal's own when it set one, else
/// the default.
pub fn named_color_to_rgb(color: TerminalNamedColor, palette_entry: Option<RgbColorDto>) -> (rgb_color:
    Option<RgbColorDto>)
    ensures
        rgb_color == match palette_entry {
            Some(c) => Some(c),
            None => named_color(color),
        },
{
    if let Some(c) = palette_entry {
        return Some(c);
    }
    match color {
        TerminalNamedColor::Black => Some(RgbColorDto::new(0, 0, 0)),
        TerminalNamedColor::Red => Some(RgbColorDto::new(205, 49, 49)),
        TerminalNamedColor::Green => Some(RgbColorDto::new(13, 188, 121)),
        TerminalNamedColor::Yellow => Some(RgbColorDto::new(229, 229, 16)),
        TerminalNamedColor::Blue => Some(RgbColorDto::new(36, 114, 200)),
        TerminalNamedColor::Magenta => Some(RgbColorDto::new(188, 63, 188)),
        TerminalNamedColor::Cyan => Some(RgbColorDto::new(17, 168, 205)),
        TerminalNamedColor::White => Some(RgbColorDto::new(229, 229, 229)),
        TerminalNamedColor::BrightBlack => Some(RgbColorDto::new(102, 102, 102)),
        TerminalNamedColor::BrightRed => Some(RgbColorDto::new(241, 76, 76)),
        TerminalNamedColor::BrightGreen => Some(RgbColorDto::new(35, 209, 139)),
        TerminalNamedColor::BrightYellow => Some(RgbColorDto::new(245, 245, 67)),
        TerminalNamedColor::BrightBlue => Some(RgbColorDto::new(59, 142, 234)),
        TerminalNamedColor::BrightMagenta => Some(RgbColorDto::new(214, 112, 214)),
        TerminalNamedColor::BrightCyan => Some(RgbColorDto::new(41, 184, 219)),
        TerminalNamedColor::BrightWhite => Some(RgbColorDto::new(255, 255, 255)),
        TerminalNamedColor::Foreground => Some(RgbColorDto::new(229, 229, 229)),
        TerminalNamedColor::Background => Some(RgbColorDto::new(0, 0, 0)),
        _ => None,
    }
}

/// The style of a cell: its resolved colors, swapped when it is drawn in
/// inverse video, and its attributes.
pub fn style_of_cell(
    foreground: Option<RgbColorDto>,
    background: Option<RgbColorDto>,
    inverse: bool,
    bold: bool,
    italic: bool,
    underline: bool,
) -> (style: TextStyleDto)
    ensures
        style == (TextStyleDto {
            foreground: if inverse {
                background
            } else {
                foreground
            },
            background: if inverse {
                foreground
            } else {
                background
            },
            bold,
            italic,
            underline,
        }),
{
    let (foreground, background) = if inverse {
        (background, foreground)
    } else {
        (foreground, background)
    };
    TextStyleDto { foreground, background, bold, italic, underline }
}

// ---------------------------------------------------------------------------
// Damage.
// ---------------------------------------------------------------------------

/// What changed on a terminal screen since it was last drawn.
#[derive(Debug, Clone, PartialEq, Eq)]
pub enum TerminalDamage {
    Full,
    Partial(Vec<u32>),
}

/// A damaged row and its neighbors on the screen are redrawn.
pub open spec fn row_is_redrawn(damaged: Seq<u32>, screen_lines: u32, row: u32) -> bool {
    exists|k: int|
        0 <= k < damaged.len() && {
            let d = #[trigger] damaged[k];
            ||| row == d
            ||| (d > 0 && row == d - 1)
            ||| (d + 1 < screen_lines && row == d + 1)
        }
}

/// The rows to redraw, in increasing order: every screen line after full
/// damage; else each damaged line with the lines just above and below it
/// that are on the screen.
pub fn dirty_rows_of(damage: &TerminalDamage, screen_lines: u32) -> (rows: Vec<u32>)
    ensures
        crate::snapshot_frame_plan::increasing(rows@),
        damage matches TerminalDamage::Full ==> rows@ == Seq::new(screen_lines as nat, |i: int| i as u32),
        damage matches TerminalDamage::Partial(lines) ==> forall|r: u32|
            rows@.contains(r) <==> row_is_redrawn(lines@, screen_lines, r),
{
    let mut rows: Vec<u32> = Vec::new();
    match damage {
        TerminalDamage::Full => {
            let mut r: u32 = 0;
            while r < screen_lines
                invariant
                    r <= screen_lines,
                    rows@ == Seq::new(r as nat, |i: int| i as u32),
                decreases screen_lines - r,
            {
                rows.push(r);
                assert(rows@ =~= Seq::new((r + 1) as nat, |i: int| i as u32));
                r = r + 1;
            }
            rows
        },
        TerminalDamage::Partial(lines) => {
            let mut k: usize = 0;
            while k < lines.len()
                invariant
                    k <= lines@.len(),
                    crate::snapshot_frame_plan::increasing(rows@),
                    forall|r: u32| rows@.contains(r) <==> row_is_redrawn(lines@.subrange(0, k as int), screen_lines, r),
                decreases lines@.len() - k,
            {
                let row = lines[k];
                let ghost before = rows@;
                crate::snapshot_frame_plan::insert_row(&mut rows, row);
                if row > 0 {
                    crate::snapshot_frame_plan::insert_row(&mut rows, row - 1);
                }
                if row < u32::MAX && row + 1 < screen_lines {
                    crate::snapshot_frame_plan::insert_row(&mut rows, row + 1);
                }
                proof {
                    let prefix = lines@.subrange(0, k as int);
                    let longer = lines@.subrange(0, k as int + 1);
                    assert forall|r: u32|
                        rows@.contains(r) <==> row_is_redrawn(longer, screen_lines, r) by {
                        if row_is_redrawn(longer, screen_lines, r) {
                            let m = choose|m: int|
                                0 <= m < longer.len() && {
                                    let d = #[trigger] longer[m];
                                    ||| r == d
                                    ||| (d > 0 && r == d - 1)
                                    ||| (d + 1 < screen_lines && r == d + 1)
                                };
                            if m < k {
                                assert(prefix[m] == longer[m]);
                                assert(row_is_redrawn(prefix, screen_lines, r));
                            }
                        }
                        if row_is_redrawn(prefix, screen_lines, r) {
                            let m = choose|m: int|
                                0 <= m < prefix.len() && {
                                    let d = #[trigger] prefix[m];
                                    ||| r == d
                                    ||| (d > 0 && r == d - 1)
                                    ||| (d + 1 < screen_lines && r == d + 1)
                                };
                            assert(longer[m] == prefix[m]);
                        }
                        if r == row || (row > 0 && r == row - 1) || (row + 1 < screen_lines && r == row + 1) {
                            assert(longer[k as int] == row);
                        }
                    }
                }
                k = k + 1;
            }
            assert(lines@.subrange(0, lines@.len() as int) =~= lines@);
            rows
        },
    }
}

// ---------------------------------------------------------------------------
// Rows of cells into plain text and styled runs.
// ---------------------------------------------------------------------------

/// One visible cell of a terminal row.
#[derive(Debug, Clone, Copy, PartialEq, Eq, Structural)]
pub struct StyledCell {
    pub col: u32,
    pub c: char,
    pub style: TextStyleDto,
}

/// The characters `char::is_whitespace` accepts: those with the Unicode
/// White_Space property.
pub open spec fn is_white_space(c: char) -> bool {
    let v = c as int;
    (0x09 <= v <= 0x0d) || v == 0x20 || v == 0x85 || v == 0xa0 || v == 0x1680 || (0x2000 <= v
        <= 0x200a) || v == 0x2028 || v == 0x2029 || v == 0x202f || v == 0x205f || v == 0x3000
}

pub fn is_white_space_char(c: char) -> (r: bool)
    ensures
        r == is_white_space(c),
{
    let v = c as u32;
    (0x09 <= v && v <= 0x0d) || v == 0x20 || v == 0x85 || v == 0xa0 || v == 0x1680 || (0x2000 <= v
        && v <= 0x200a) || v == 0x2028 || v == 0x2029 || v == 0x202f || v == 0x205f || v == 0x3000
}

/// The text without its trailing white space.
pub open spec fn trim_end(text: Seq<char>) -> Seq<char>
    decreases text.len(),
{
    if text.len() > 0 && is_white_space(text.last()) {
        trim_end(text.drop_last())
    } else {
        text
    }
}

/// Text made of white space only.
pub open spec fn all_white_space(text: Seq<char>) -> bool {
    forall|i: int| 0 <= i < text.len() ==> is_white_space(#[trigger] text[i])
}

/// The number of cells a character takes: its cell width, at least one.
pub open spec fn cell_advance(c: char) -> int {
    if char_cell_width(c) < 1 {
        1
    } else {
        char_cell_width(c) as int
    }
}

/// `n` spaces.
pub open spec fn spaces(n: int) -> Seq<char> {
    Seq::new(if n > 0 {
        n as nat
    } else {
        0
    }, |i: int| ' ')
}

/// The text of a row of cells before trimming, and the column after it:
/// each cell's character at its column, with spaces over the gaps.
pub open spec fn line_layout(cells: Seq<StyledCell>) -> (Seq<char>, int)
    decreases cells.len(),
{
    if cells.len() == 0 {
        (Seq::empty(), 0)
    } else {
        let (text, next_col) = line_layout(cells.drop_last());
        let cell = cells.last();
        (text + spaces(cell.col - next_col) + seq![cell.c], cell.col + cell_advance(cell.c))
    }
}

/// The plain text of a row of cells, without trailing white space.
pub open spec fn line_text(cells: Seq<StyledCell>) -> Seq<char> {
    trim_end(line_layout(cells).0)
}

/// The columns of the cells leave room for a wide character after each.
pub open spec fn cells_in_range(cells: Seq<StyledCell>) -> bool {
    forall|i: int| 0 <= i < cells.len() ==> (#[trigger] cells[i]).col <= u32::MAX - 2
}

proof fn lemma_line_layout_bounds(cells: Seq<StyledCell>)
    requires
        cells_in_range(cells),
    ensures
        0 <= line_layout(cells).1 <= u32::MAX,
    decreases cells.len(),
{
    if cells.len() > 0 {
        lemma_line_layout_bounds(cells.drop_last());
        assert(cells.last() == cells[cells.len() - 1]);
    }
}

/// The end of the text once trailing white space is dropped.
fn trimmed_len(text: &str) -> (n: usize)
    ensures
        n <= text@.len(),
        trim_end(text@) == text@.subrange(0, n as int),
{
    let mut n = text.unicode_len();
    assert(text@.subrange(0, n as int) =~= text@);
    while n > 0 && is_white_space_char(text.get_char(n - 1))
        invariant
            n <= text@.len(),
            trim_end(text@) == trim_end(text@.subrange(0, n as int)),
        decreases n,
    {
        proof {
            assert(text@.subrange(0, n as int).drop_last() =~= text@.subrange(0, n as int - 1));
        }
        n = n - 1;
    }
    n
}

/// The plain text of a row of cells, sorted by column: each character at its
/// column, spaces over the gaps, trailing white space dropped.
pub fn line_text_from_cells(cells: &[StyledCell]) -> (text: String)
    requires
        cells_in_range(cells@),
    ensures
        text@ == line_text(cells@),
{
    let mut text = String::new();
    let mut next_col: u32 = 0;
    let mut k: usize = 0;
    while k < cells.len()
        invariant
            k <= cells@.len(),
            cells_in_range(cells@),
            (text@, next_col as int) == line_layout(cells@.subrange(0, k as int)),
        decreases cells@.len() - k,
    {
        let cell = cells[k];
        let ghost before = text@;
        proof {
            assert(cells@.subrange(0, k as int + 1).drop_last() =~= cells@.subrange(0, k as int));
            assert(cells@.subrange(0, k as int + 1).last() == cell);
        }
        let ghost start_col = next_col;
        while next_col < cell.col
            invariant
                start_col <= next_col,
                start_col < cell.col ==> next_col <= cell.col,
                start_col >= cell.col ==> next_col == start_col,
                text@ == before + spaces(next_col - start_col),
            decreases cell.col - next_col,
        {
            text.push(' ');
            assert(text@ =~= before + spaces(next_col + 1 - start_col));
            next_col = next_col + 1;
        }
        assert(spaces(cell.col - start_col) =~= spaces(next_col - start_col));
        assert(text@ =~= before + spaces(cell.col - start_col));
        text.push(cell.c);
        let width = terminal_char_cell_width(cell.c);
        let advance: u32 = if width < 1 {
            1
        } else {
            width
        };
        assert(cell.col <= u32::MAX - 2);
        next_col = cell.col + advance;
        k = k + 1;
    }
    assert(cells@.subrange(0, cells@.len() as int) =~= cells@);
    let n = trimmed_len(text.as_str());
    text.as_str().substring_char(0, n).to_owned()
}

/// A style that shows even on a blank cell: a background, an underline, or
/// bold or italic.
pub open spec fn visible_style(style: TextStyleDto) -> bool {
    style.background is Some || style.underline || style.bold || style.italic
}

pub fn style_has_visible_content(style: TextStyleDto) -> (r: bool)
    ensures
        r == visible_style(style),
{
    style.background.is_some() || style.underline || style.bold || style.italic
}

/// A styled run seen as plain values.
pub struct TextRunView {
    pub x: u32,
    pub y: u32,
    pub text: Seq<char>,
    pub style: TextStyleDto,
}

pub open spec fn text_runs_view(runs: Seq<TerminalTextRunSnapshot>) -> Seq<TextRunView> {
    runs.map_values(|run: TerminalTextRunSnapshot| TextRunView { x: run.x, y: run.y, text: run.text@, style: run.style })
}

/// The runs with one more run, unless its text is empty, or blank in a
/// style that shows nothing.
pub open spec fn runs_with(
    runs: Seq<TextRunView>,
    x: u32,
    y: u32,
    text: Seq<char>,
    style: TextStyleDto,
) -> Seq<TextRunView> {
    if text.len() == 0 || (all_white_space(text) && !visible_style(style)) {
        runs
    } else {
        runs.push(TextRunView { x, y, text, style })
    }
}

/// Whether the text is white space only.
fn is_blank(text: &str) -> (r: bool)
    ensures
        r == all_white_space(text@),
{
    let n = text.unicode_len();
    let mut i: usize = 0;
    while i < n
        invariant
            n == text@.len(),
            i <= n,
            forall|j: int| 0 <= j < i ==> is_white_space(#[trigger] text@[j]),
        decreases n - i,
    {
        if !is_white_space_char(text.get_char(i)) {
            return false;
        }
        i = i + 1;
    }
    true
}

/// Adds a run unless its text is empty, or blank in a style that shows
/// nothing.
pub fn push_run_if_not_blank(
    runs: &mut Vec<TerminalTextRunSnapshot>,
    x: u32,
    y: u32,
    text: &str,
    style: TextStyleDto,
)
    ensures
        text_runs_view(final(runs)@) == runs_with(text_runs_view(old(runs)@), x, y, text@, style),
{
    if text.is_empty() {
        return;
    }
    if is_blank(text) && !style_has_visible_content(style) {
        return;
    }
    let run = TerminalTextRunSnapshot { x, y, text: text.to_owned(), style };
    runs.push(run);
    assert(text_runs_view(runs@) =~= text_runs_view(old(runs)@).push(
        TextRunView { x, y, text: text@, style },
    ));
}

/// The run being built: where it starts, where the next cell of it would
/// be, its text and its style.
pub struct OpenRun {
    pub x: u32,
    pub next_x: int,
    pub text: Seq<char>,
    pub style: TextStyleDto,
}

/// The runs of a row of cells so far, and the run being built.
pub open spec fn runs_layout(row: u32, cells: Seq<StyledCell>) -> (Seq<TextRunView>, Option<OpenRun>)
    decreases cells.len(),
{
    if cells.len() == 0 {
        (Seq::empty(), None)
    } else {
        let (runs, open) = runs_layout(row, cells.drop_last());
        let cell = cells.last();
        let next = cell.col + cell_advance(cell.c);
        if cell.c == ' ' && !visible_style(cell.style) {
            (runs, open)
        } else {
            match open {
                None => (runs, Some(OpenRun { x: cell.col, next_x: next, text: seq![cell.c], style: cell.style })),
                Some(run) => if run.style == cell.style && cell.col == run.next_x {
                    (runs, Some(OpenRun { x: run.x, next_x: next, text: run.text.push(cell.c), style: run.style }))
                } else {
                    (
                        runs_with(runs, run.x, row, run.text, run.style),
                        Some(OpenRun { x: cell.col, next_x: next, text: seq![cell.c], style: cell.style }),
                    )
                },
            }
        }
    }
}

/// The styled runs of a row of cells, sorted by column: neighbouring cells
/// of one style make one run; blank cells in a style that shows nothing
/// break no run but join none; runs that end up blank in such a style are
/// dropped.
pub open spec fn styled_runs(row: u32, cells: Seq<StyledCell>) -> Seq<TextRunView> {
    let (runs, open) = runs_layout(row, cells);
    match open {
        Some(run) => runs_with(runs, run.x, row, run.text, run.style),
        None => runs,
    }
}

pub fn styled_runs_from_cells(row: u32, cells: &[StyledCell]) -> (runs: Vec<TerminalTextRunSnapshot>)
    requires
        cells_in_range(cells@),
    ensures
        text_runs_view(runs@) == styled_runs(row, cells@),
{
    let mut runs: Vec<TerminalTextRunSnapshot> = Vec::new();
    let mut current_x: u32 = 0;
    let mut current_next_x: u32 = 0;
    let mut current_text = String::new();
    let mut current_style: Option<TextStyleDto> = None;
    let mut k: usize = 0;
    while k < cells.len()
        invariant
            k <= cells@.len(),
            cells_in_range(cells@),
            ({
                let (spec_runs, open) = runs_layout(row, cells@.subrange(0, k as int));
                &&& text_runs_view(runs@) == spec_runs
                &&& match open {
                    None => current_style is None,
                    Some(run) => current_style == Some(run.style) && current_x == run.x
                        && current_next_x == run.next_x && current_text@ == run.text,
                }
            }),
        decreases cells@.len() - k,
    {
        let cell = cells[k];
        proof {
            assert(cells@.subrange(0, k as int + 1).drop_last() =~= cells@.subrange(0, k as int));
            assert(cells@.subrange(0, k as int + 1).last() == cell);
        }
        let style = cell.style;
        if cell.c == ' ' && !style_has_visible_content(style) {
            k = k + 1;
            continue;
        }
        let width = terminal_char_cell_width(cell.c);
        let cell_width: u32 = if width < 1 {
            1
        } else {
            width
        };
        assert(cell.col <= u32::MAX - 2);
        match current_style {
            None => {
                current_x = cell.col;
                current_next_x = cell.col + cell_width;
                current_text = String::new();
                current_text.push(cell.c);
                current_style = Some(style);
                assert(current_text@ =~= seq![cell.c]);
            },
            Some(existing_style) => {
                if existing_style == style && cell.col == current_next_x {
                    current_text.push(cell.c);
                    current_next_x = cell.col + cell_width;
                } else {
                    push_run_if_not_blank(&mut runs, current_x, row, current_text.as_str(), existing_style);
                    current_x = cell.col;
                    current_next_x = cell.col + cell_width;
                    current_text = String::new();
                    current_text.push(cell.c);
                    current_style = Some(style);
                    assert(current_text@ =~= seq![cell.c]);
                }
            },
        }
        k = k + 1;
    }
    assert(cells@.subrange(0, cells@.len() as int) =~= cells@);
    if let Some(style) = current_style {
        push_run_if_not_blank(&mut runs, current_x, row, current_text.as_str(), style);
    }
    runs
}

// ---------------------------------------------------------------------------
// The visible screen: cells grouped by row, each row sorted by column.
// ---------------------------------------------------------------------------

/// A cell as the terminal's display iterator yields it: its line (negative
/// in the history above the screen), its column, its character and style,
/// and whether it only holds the second half of a wide character.
#[derive(Debug, Clone, Copy, PartialEq, Eq, Structural)]
pub struct DisplayCell {
    pub line: i32,
    pub column: usize,
    pub c: char,
    pub style: TextStyleDto,
    pub wide_char_spacer: bool,
}

/// The screen row a display cell is drawn on: none for history lines and
/// for the second halves of wide characters.
pub open spec fn display_row(cell: DisplayCell) -> Option<u32> {
    if cell.line >= 0 && !cell.wide_char_spacer {
        Some(cell.line as u32)
    } else {
        None
    }
}

/// The styled cell of a display cell; its column is taken modulo 2^32.
pub open spec fn styled_cell(cell: DisplayCell) -> StyledCell {
    StyledCell { col: cell.column as u32, c: cell.c, style: cell.style }
}

/// Inserts a cell into cells sorted by column, after every cell whose
/// column is not greater: the step of a stable sort by column.
pub open spec fn insert_by_col(sorted: Seq<StyledCell>, cell: StyledCell) -> Seq<StyledCell>
    decreases sorted.len(),
{
    if sorted.len() == 0 {
        seq![cell]
    } else if sorted.last().col <= cell.col {
        sorted.push(cell)
    } else {
        insert_by_col(sorted.drop_last(), cell).push(sorted.last())
    }
}

/// The cells of row `row` among the first `n` display cells, stably sorted
/// by column.
pub open spec fn sorted_row_cells(cells: Seq<DisplayCell>, row: u32, n: int) -> Seq<StyledCell>
    decreases n,
{
    if n <= 0 {
        Seq::empty()
    } else if display_row(cells[n - 1]) == Some(row) {
        insert_by_col(sorted_row_cells(cells, row, n - 1), styled_cell(cells[n - 1]))
    } else {
        sorted_row_cells(cells, row, n - 1)
    }
}

/// Adds a row to rows in increasing order, unless it is there.
pub open spec fn insert_row(rows: Seq<u32>, row: u32) -> Seq<u32>
    decreases rows.len(),
{
    if rows.len() == 0 {
        seq![row]
    } else if rows.last() < row {
        rows.push(row)
    } else if rows.last() == row {
        rows
    } else {
        insert_row(rows.drop_last(), row).push(rows.last())
    }
}

/// The rows the first `n` display cells are drawn on, in increasing order.
pub open spec fn display_rows(cells: Seq<DisplayCell>, n: int) -> Seq<u32>
    decreases n,
{
    if n <= 0 {
        Seq::empty()
    } else {
        match display_row(cells[n - 1]) {
            Some(row) => insert_row(display_rows(cells, n - 1), row),
            None => display_rows(cells, n - 1),
        }
    }
}

/// The non-empty lines of the first `k` rows, with their row numbers.
pub open spec fn visible_lines(cells: Seq<DisplayCell>, rows: Seq<u32>, k: int) -> Seq<(u32, Seq<char>)>
    decreases k,
{
    if k <= 0 {
        Seq::empty()
    } else {
        let row = rows[k - 1];
        let text = line_text(sorted_row_cells(cells, row, cells.len() as int));
        if text.len() > 0 {
            visible_lines(cells, rows, k - 1).push((row, text))
        } else {
            visible_lines(cells, rows, k - 1)
        }
    }
}

/// The styled runs of the first `k` rows.
pub open spec fn visible_runs(cells: Seq<DisplayCell>, rows: Seq<u32>, k: int) -> Seq<TextRunView>
    decreases k,
{
    if k <= 0 {
        Seq::empty()
    } else {
        let row = rows[k - 1];
        visible_runs(cells, rows, k - 1) + styled_runs(row, sorted_row_cells(cells, row, cells.len() as int))
    }
}

/// The columns of the screen's cells leave room for a wide character after
/// each.
pub open spec fn display_cells_in_range(cells: Seq<DisplayCell>) -> bool {
    forall|i: int|
        0 <= i < cells.len() && display_row(#[trigger] cells[i]) is Some ==> (cells[i].column as u32) <= u32::MAX - 2
}

proof fn lemma_insert_by_col_in_range(sorted: Seq<StyledCell>, cell: StyledCell)
    requires
        cells_in_range(sorted),
        cell.col <= u32::MAX - 2,
    ensures
        cells_in_range(insert_by_col(sorted, cell)),
        insert_by_col(sorted, cell).len() == sorted.len() + 1,
    decreases sorted.len(),
{
    if sorted.len() > 0 && sorted.last().col > cell.col {
        lemma_insert_by_col_in_range(sorted.drop_last(), cell);
        let shorter = insert_by_col(sorted.drop_last(), cell);
        assert forall|i: int| 0 <= i < shorter.push(sorted.last()).len() implies (#[trigger] shorter.push(
            sorted.last(),
        )[i]).col <= u32::MAX - 2 by {
            if i < shorter.len() {
                assert(shorter.push(sorted.last())[i] == shorter[i]);
            }
        }
    }
}

proof fn lemma_sorted_row_cells_in_range(cells: Seq<DisplayCell>, row: u32, n: int)
    requires
        display_cells_in_range(cells),
        n <= cells.len(),
    ensures
        cells_in_range(sorted_row_cells(cells, row, n)),
    decreases n,
{
    if n > 0 {
        lemma_sorted_row_cells_in_range(cells, row, n - 1);
        if display_row(cells[n - 1]) == Some(row) {
            lemma_insert_by_col_in_range(sorted_row_cells(cells, row, n - 1), styled_cell(cells[n - 1]));
        }
    }
}

fn insert_cell_by_col(sorted: &mut Vec<StyledCell>, cell: StyledCell)
    ensures
        final(sorted)@ == insert_by_col(old(sorted)@, cell),
    decreases old(sorted)@.len(),
{
    let len = sorted.len();
    if len == 0 {
        sorted.push(cell);
        assert(sorted@ =~= seq![cell]);
        return;
    }
    if sorted[len - 1].col <= cell.col {
        sorted.push(cell);
        return;
    }
    let last = sorted.pop().unwrap();
    insert_cell_by_col(sorted, cell);
    sorted.push(last);
}

fn insert_row_number(rows: &mut Vec<u32>, row: u32)
    ensures
        final(rows)@ == insert_row(old(rows)@, row),
    decreases old(rows)@.len(),
{
    let len = rows.len();
    if len == 0 {
        rows.push(row);
        assert(rows@ =~= seq![row]);
        return;
    }
    let last = rows[len - 1];
    if last < row {
        rows.push(row);
        return;
    }
    if last == row {
        return;
    }
    let last = rows.pop().unwrap();
    insert_row_number(rows, row);
    rows.push(last);
}

/// The plain lines and styled runs of the visible screen: the cells of each
/// screen row (history lines and wide-character halves left out), stably
/// sorted by column; each row with text gives a line, and every row its
/// runs, rows in increasing order.
pub fn visible_lines_and_runs(cells: &[DisplayCell]) -> (screen: (Vec<TerminalLineSnapshot>, Vec<
    TerminalTextRunSnapshot,
>))
    requires
        display_cells_in_range(cells@),
    ensures
        ({
            let rows = display_rows(cells@, cells@.len() as int);
            let lines = visible_lines(cells@, rows, rows.len() as int);
            &&& screen.0@.len() == lines.len()
            &&& forall|i: int|
                0 <= i < lines.len() ==> (#[trigger] screen.0@[i]).row == lines[i].0 && screen.0@[i].text@
                    == lines[i].1
            &&& text_runs_view(screen.1@) == visible_runs(cells@, rows, rows.len() as int)
        }),
{
    let n = cells.len();
    let mut rows: Vec<u32> = Vec::new();
    let mut i: usize = 0;
    while i < n
        invariant
            n == cells@.len(),
            i <= n,
            rows@ == display_rows(cells@, i as int),
        decreases n - i,
    {
        let cell = cells[i];
        if cell.line >= 0 && !cell.wide_char_spacer {
            insert_row_number(&mut rows, cell.line as u32);
        }
        i = i + 1;
    }
    let ghost all_rows = rows@;
    let mut lines: Vec<TerminalLineSnapshot> = Vec::new();
    let mut runs: Vec<TerminalTextRunSnapshot> = Vec::new();
    let mut k: usize = 0;
    while k < rows.len()
        invariant
            n == cells@.len(),
            k <= rows@.len(),
            rows@ == all_rows,
            all_rows == display_rows(cells@, n as int),
            display_cells_in_range(cells@),
            lines@.len() == visible_lines(cells@, all_rows, k as int).len(),
            forall|j: int|
                0 <= j < lines@.len() ==> (#[trigger] lines@[j]).row == visible_lines(cells@, all_rows, k as int)[j].0
                    && lines@[j].text@ == visible_lines(cells@, all_rows, k as int)[j].1,
            text_runs_view(runs@) == visible_runs(cells@, all_rows, k as int),
        decreases rows@.len() - k,
    {
        let row = rows[k];
        let mut sorted: Vec<StyledCell> = Vec::new();
        let mut i: usize = 0;
        while i < n
            invariant
                n == cells@.len(),
                i <= n,
                sorted@ == sorted_row_cells(cells@, row, i as int),
            decreases n - i,
        {
            let cell = cells[i];
            if cell.line >= 0 && !cell.wide_char_spacer && cell.line as u32 == row {
                insert_cell_by_col(&mut sorted, StyledCell { col: cell.column as u32, c: cell.c, style: cell.style });
            }
            i = i + 1;
        }
        proof {
            lemma_sorted_row_cells_in_range(cells@, row, n as int);
        }
        let text = line_text_from_cells(sorted.as_slice());
        let ghost before_lines = lines@;
        if text.unicode_len() > 0 {
            lines.push(TerminalLineSnapshot { row, text });
        }
        let row_runs = styled_runs_from_cells(row, sorted.as_slice());
        let ghost before_runs = runs@;
        let mut j: usize = 0;
        while j < row_runs.len()
            invariant
                j <= row_runs@.len(),
                runs@ == before_runs + row_runs@.subrange(0, j as int),
            decreases row_runs@.len() - j,
        {
            let run = &row_runs[j];
            runs.push(TerminalTextRunSnapshot {
                x: run.x,
                y: run.y,
                text: run.text.clone(),
                style: run.style,
            });
            proof {
                assert(runs@.last().text@ == row_runs@[j as int].text@);
                assert(runs@ =~= before_runs + row_runs@.subrange(0, j as int + 1)) by {
                    assert(text_runs_view(seq![runs@.last()]) == text_runs_view(seq![row_runs@[j as int]]));
                }
            }
            j = j + 1;
        }
        proof {
            assert(row_runs@.subrange(0, row_runs@.len() as int) =~= row_runs@);
            assert(text_runs_view(runs@) =~= text_runs_view(before_runs) + text_runs_view(row_runs@));
        }
        k = k + 1;
    }
    (lines, runs)
}

} // verus!
