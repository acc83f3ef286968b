use vstd::prelude::*;
use crate::colors::{RgbColorDto, TerminalColorTheme};
use crate::render_surface::{
    RenderSurfaceCursorSnapshot, RenderSurfaceRowSnapshot, RenderSurfaceSnapshot, RunView, runs_view,
    same_runs, same_surface,
};

verus! {

/// A pixel position in a surface.
#[derive(Debug, Clone, Copy, PartialEq, Eq, Structural)]
pub struct PixelPosition {
    pub x_px: u32,
    pub y_px: u32,
}

/// How the terminal grid sits in a surface: cell size, the content area,
/// the grid size, and the cursor's drawing state.
#[derive(Debug, Clone, Copy, PartialEq, Eq, Structural)]
pub struct WgpuRendererConfig {
    pub cell_width_px: u32,
    pub cell_height_px: u32,
    pub content_origin_x: u32,
    pub content_origin_y: u32,
    pub content_width_px: u32,
    pub content_height_px: u32,
    pub grid_columns: u32,
    pub grid_rows: u32,
    pub blinking_cursor_visible: bool,
    pub cursor_color: RgbColorDto,
    pub cursor_text_color: RgbColorDto,
    pub cursor_position_px: Option<PixelPosition>,
}

/// `a + b`, at most `u32::MAX`.
pub open spec fn sat_add_u32(a: int, b: int) -> int {
    if a + b > u32::MAX {
        u32::MAX as int
    } else {
        a + b
    }
}

/// `a - b`, at least 0.
pub open spec fn sat_sub_u32(a: int, b: int) -> int {
    if a < b {
        0
    } else {
        a - b
    }
}

pub open spec fn at_least_one(v: int) -> int {
    if v < 1 {
        1
    } else {
        v
    }
}

/// Where row `row` starts below the content origin: the rows share the
/// content height, row `r` of `n` starting at `r * height / n`.
pub open spec fn row_offset(config: WgpuRendererConfig, row: u32) -> int {
    let rows = at_least_one(config.grid_rows as int);
    let r = if (row as int) < rows {
        row as int
    } else {
        rows
    };
    let offset = r * (config.content_height_px as int) / rows;
    if offset > u32::MAX {
        u32::MAX as int
    } else {
        offset
    }
}

/// The top of a row in surface pixels; a row past the grid is placed a
/// whole cell height per row below the origin.
pub open spec fn row_top(config: WgpuRendererConfig, row: u32) -> int {
    if (row as int) >= at_least_one(config.grid_rows as int) {
        sat_add_u32(
            config.content_origin_y as int,
            if row as int * config.cell_height_px as int > u32::MAX {
                u32::MAX as int
            } else {
                row as int * config.cell_height_px as int
            },
        )
    } else {
        sat_add_u32(config.content_origin_y as int, row_offset(config, row))
    }
}

/// The height of a row in pixels, at least one.
pub open spec fn row_height(config: WgpuRendererConfig, row: u32) -> int {
    if (row as int) >= at_least_one(config.grid_rows as int) {
        at_least_one(config.cell_height_px as int)
    } else {
        at_least_one(
            sat_sub_u32(
                row_offset(config, sat_add_u32(row as int, 1) as u32),
                row_offset(config, row),
            ),
        )
    }
}

/// The bottom of the content area.
pub open spec fn content_bottom(config: WgpuRendererConfig) -> int {
    sat_add_u32(config.content_origin_y as int, config.content_height_px as int)
}

impl WgpuRendererConfig {
    pub fn with_blinking_cursor_visible(self, visible: bool) -> (config: Self)
        ensures
            config == (WgpuRendererConfig { blinking_cursor_visible: visible, ..self }),
    {
        WgpuRendererConfig { blinking_cursor_visible: visible, ..self }
    }

    /// The configuration with the theme's cursor colors.
    pub fn with_color_theme(self, theme: TerminalColorTheme) -> (config: Self)
        ensures
            config == (WgpuRendererConfig { cursor_color: theme.cursor, cursor_text_color: theme.cursor_text, ..self }),
    {
        WgpuRendererConfig { cursor_color: theme.cursor, cursor_text_color: theme.cursor_text, ..self }
    }

    pub fn row_offset_px(self, row: u32) -> (offset: u32)
        ensures
            offset == row_offset(self, row),
    {
        let rows: u32 = if self.grid_rows < 1 {
            1
        } else {
            self.grid_rows
        };
        let r: u32 = if row < rows {
            row
        } else {
            rows
        };
        let height = self.content_height_px;
        assert((r as int) * (height as int) <= 0xffff_ffff * 0xffff_ffff) by (nonlinear_arith)
            requires
                r <= 0xffff_ffff,
                height <= 0xffff_ffff,
        ;
        let product: u64 = r as u64 * height as u64;
        let offset: u64 = product / rows as u64;
        if offset > u32::MAX as u64 {
            u32::MAX
        } else {
            offset as u32
        }
    }

    pub fn row_top_px(self, row: u32) -> (top: u32)
        ensures
            top == row_top(self, row),
    {
        let rows: u32 = if self.grid_rows < 1 {
            1
        } else {
            self.grid_rows
        };
        if row >= rows {
            let cell = self.cell_height_px;
            assert((row as int) * (cell as int) <= 0xffff_ffff * 0xffff_ffff) by (nonlinear_arith)
                requires
                    row <= 0xffff_ffff,
                    cell <= 0xffff_ffff,
            ;
            let product: u64 = row as u64 * cell as u64;
            let below: u32 = if product > u32::MAX as u64 {
                u32::MAX
            } else {
                product as u32
            };
            return self.content_origin_y.saturating_add(below);
        }
        self.content_origin_y.saturating_add(self.row_offset_px(row))
    }

    pub fn row_height_px(self, row: u32) -> (height: u32)
        ensures
            height == row_height(self, row),
    {
        let rows: u32 = if self.grid_rows < 1 {
            1
        } else {
            self.grid_rows
        };
        if row >= rows {
            return if self.cell_height_px < 1 {
                1
            } else {
                self.cell_height_px
            };
        }
        let height = self.row_offset_px(row.saturating_add(1)).saturating_sub(self.row_offset_px(row));
        if height < 1 {
            1
        } else {
            height
        }
    }
}

impl Default for WgpuRendererConfig {
    /// One 8 by 16 cell at the origin, a visible cursor, light on dark.
    fn default() -> (config: Self)
        ensures
            config == (WgpuRendererConfig {
                cell_width_px: 8,
                cell_height_px: 16,
                content_origin_x: 0,
                content_origin_y: 0,
                content_width_px: 8,
                content_height_px: 16,
                grid_columns: 1,
                grid_rows: 1,
                blinking_cursor_visible: true,
                cursor_color: RgbColorDto { red: 235, green: 235, blue: 235 },
                cursor_text_color: RgbColorDto { red: 0, green: 0, blue: 0 },
                cursor_position_px: None,
            }),
    {
        WgpuRendererConfig {
            cell_width_px: 8,
            cell_height_px: 16,
            content_origin_x: 0,
            content_origin_y: 0,
            content_width_px: 8,
            content_height_px: 16,
            grid_columns: 1,
            grid_rows: 1,
            blinking_cursor_visible: true,
            cursor_color: RgbColorDto { red: 235, green: 235, blue: 235 },
            cursor_text_color: RgbColorDto { red: 0, green: 0, blue: 0 },
            cursor_position_px: None,
        }
    }
}

/// What to do with the retained texture of a terminal frame: redraw it all,
/// reuse it as it is, redraw the band of rows between two pixel lines, or
/// shift it up by whole rows and redraw the band below what was kept.
#[derive(Debug, Clone, Copy, PartialEq, Eq, Structural)]
pub enum WgpuRetainedFrameAction {
    Full,
    Reuse,
    Damage { top_px: u32, bottom_px: u32 },
    ScrollUp { rows: u32, preserved_rows: u32, top_px: u32, bottom_px: u32 },
}

impl WgpuRetainedFrameAction {
    /// The band to redraw, for a damage or a scroll.
    pub fn damage_bounds(self) -> (bounds: Option<(u32, u32)>)
        ensures
            bounds == match self {
                WgpuRetainedFrameAction::Damage { top_px, bottom_px } => Some((top_px, bottom_px)),
                WgpuRetainedFrameAction::ScrollUp { top_px, bottom_px, .. } => Some((top_px, bottom_px)),
                _ => None::<(u32, u32)>,
            },
    {
        match self {
            WgpuRetainedFrameAction::Damage { top_px, bottom_px } => Some((top_px, bottom_px)),
            WgpuRetainedFrameAction::ScrollUp { top_px, bottom_px, .. } => Some((top_px, bottom_px)),
            WgpuRetainedFrameAction::Full | WgpuRetainedFrameAction::Reuse => None,
        }
    }
}

/// The grid row under a pixel line, computed in 64 bits and kept to its low
/// 32 bits.
pub open spec fn pixel_row_spec(config: WgpuRendererConfig, y_px: u32) -> u32 {
    let relative = sat_sub_u32(y_px as int, config.content_origin_y as int);
    let row = relative * at_least_one(config.grid_rows as int) / at_least_one(
        config.content_height_px as int,
    );
    (row % 0x1_0000_0000) as u32
}

pub fn pixel_row(config: WgpuRendererConfig, y_px: u32) -> (row: u32)
    ensures
        row == pixel_row_spec(config, y_px),
{
    let relative: u32 = y_px.saturating_sub(config.content_origin_y);
    let rows: u64 = if config.grid_rows < 1 {
        1
    } else {
        config.grid_rows as u64
    };
    let height: u64 = if config.content_height_px < 1 {
        1
    } else {
        config.content_height_px as u64
    };
    assert((relative as int) * (rows as int) <= 0xffff_ffff * 0xffff_ffff) by (nonlinear_arith)
        requires
            relative <= 0xffff_ffff,
            rows <= 0xffff_ffff,
    ;
    let product: u64 = relative as u64 * rows;
    let quotient: u64 = product / height;
    (quotient % 0x1_0000_0000) as u32
}

/// The least of the rows below `limit`, if any.
pub open spec fn least_row_below(rows: Seq<u32>, limit: u32) -> Option<u32>
    decreases rows.len(),
{
    if rows.len() == 0 {
        None
    } else {
        let rest = least_row_below(rows.drop_last(), limit);
        let r = rows.last();
        if r >= limit {
            rest
        } else {
            match rest {
                Some(m) => Some(if r < m {
                    r
                } else {
                    m
                }),
                None => Some(r),
            }
        }
    }
}

/// The greatest of the rows below `limit`, if any.
pub open spec fn greatest_row_below(rows: Seq<u32>, limit: u32) -> Option<u32>
    decreases rows.len(),
{
    if rows.len() == 0 {
        None
    } else {
        let rest = greatest_row_below(rows.drop_last(), limit);
        let r = rows.last();
        if r >= limit {
            rest
        } else {
            match rest {
                Some(m) => Some(if r > m {
                    r
                } else {
                    m
                }),
                None => Some(r),
            }
        }
    }
}

/// The action for damaged rows: nothing to redraw when none is on the grid;
/// else the band from the top of the first to the bottom of the last, or a
/// full redraw when that band covers the content area.
pub open spec fn damage_action(config: WgpuRendererConfig, rows: Seq<u32>) -> WgpuRetainedFrameAction {
    match (least_row_below(rows, config.grid_rows), greatest_row_below(rows, config.grid_rows)) {
        (Some(min_row), Some(max_row)) => {
            let top = row_top(config, min_row);
            let bottom = sat_add_u32(row_top(config, max_row), row_height(config, max_row));
            if top <= config.content_origin_y && bottom >= content_bottom(config) {
                WgpuRetainedFrameAction::Full
            } else {
                WgpuRetainedFrameAction::Damage { top_px: top as u32, bottom_px: bottom as u32 }
            }
        },
        _ => WgpuRetainedFrameAction::Reuse,
    }
}

pub proof fn lemma_least_greatest_agree(rows: Seq<u32>, limit: u32)
    ensures
        (least_row_below(rows, limit) is Some) == (greatest_row_below(rows, limit) is Some),
    decreases rows.len(),
{
    if rows.len() > 0 {
        lemma_least_greatest_agree(rows.drop_last(), limit);
    }
}

pub fn damage_action_for_rows(config: WgpuRendererConfig, rows: &[u32]) -> (action: WgpuRetainedFrameAction)
    ensures
        action == damage_action(config, rows@),
{
    let mut least: Option<u32> = None;
    let mut greatest: Option<u32> = None;
    let mut i: usize = 0;
    while i < rows.len()
        invariant
            i <= rows@.len(),
            least == least_row_below(rows@.subrange(0, i as int), config.grid_rows),
            greatest == greatest_row_below(rows@.subrange(0, i as int), config.grid_rows),
        decreases rows@.len() - i,
    {
        let row = rows[i];
        proof {
            assert(rows@.subrange(0, i as int + 1).drop_last() =~= rows@.subrange(0, i as int));
        }
        if row < config.grid_rows {
            least = match least {
                Some(m) => Some(if row < m {
                    row
                } else {
                    m
                }),
                None => Some(row),
            };
            greatest = match greatest {
                Some(m) => Some(if row > m {
                    row
                } else {
                    m
                }),
                None => Some(row),
            };
        }
        i = i + 1;
    }
    assert(rows@.subrange(0, rows@.len() as int) =~= rows@);
    proof {
        lemma_least_greatest_agree(rows@, config.grid_rows);
    }
    match (least, greatest) {
        (Some(min_row), Some(max_row)) => {
            let top = config.row_top_px(min_row);
            let bottom = config.row_top_px(max_row).saturating_add(config.row_height_px(max_row));
            if top <= config.content_origin_y && bottom >= config.content_origin_y.saturating_add(
                config.content_height_px,
            ) {
                WgpuRetainedFrameAction::Full
            } else {
                WgpuRetainedFrameAction::Damage { top_px: top, bottom_px: bottom }
            }
        },
        _ => WgpuRetainedFrameAction::Reuse,
    }
}

/// The last frame drawn into the retained texture: the surface and the
/// renderer configuration it was drawn with.
#[derive(Debug, Clone)]
pub struct WgpuRetainedWorkspaceSnapshot {
    pub snapshot: RenderSurfaceSnapshot,
    pub renderer_config: WgpuRendererConfig,
}

/// The configuration with the cursor's blink phase and pixel position left
/// out, so that a blink or a cursor move alone does not count as a change.
pub open spec fn stable_config(config: WgpuRendererConfig) -> WgpuRendererConfig {
    WgpuRendererConfig { blinking_cursor_visible: true, cursor_position_px: None, ..config }
}

pub fn stable_renderer_config(config: WgpuRendererConfig) -> (stable: WgpuRendererConfig)
    ensures
        stable == stable_config(config),
{
    WgpuRendererConfig { blinking_cursor_visible: true, cursor_position_px: None, ..config }
}

/// The rows the cursor touched in either frame: the cursor cells, and the
/// rows under the cursor's pixel positions.
pub open spec fn cursor_rows(
    previous_cursor: Option<RenderSurfaceCursorSnapshot>,
    previous_config: WgpuRendererConfig,
    cursor: Option<RenderSurfaceCursorSnapshot>,
    config: WgpuRendererConfig,
) -> Seq<u32> {
    (match previous_cursor {
        Some(c) => seq![c.y],
        None => Seq::empty(),
    }) + (match cursor {
        Some(c) => seq![c.y],
        None => Seq::empty(),
    }) + (match previous_config.cursor_position_px {
        Some(p) => seq![pixel_row_spec(config, p.y_px)],
        None => Seq::empty(),
    }) + (match config.cursor_position_px {
        Some(p) => seq![pixel_row_spec(config, p.y_px)],
        None => Seq::empty(),
    })
}

/// The action when only the cursor may have changed: redraw its rows, or
/// everything when it is nowhere.
pub open spec fn cursor_damage(
    previous_cursor: Option<RenderSurfaceCursorSnapshot>,
    previous_config: WgpuRendererConfig,
    cursor: Option<RenderSurfaceCursorSnapshot>,
    config: WgpuRendererConfig,
) -> WgpuRetainedFrameAction {
    let rows = cursor_rows(previous_cursor, previous_config, cursor, config);
    if rows.len() == 0 {
        WgpuRetainedFrameAction::Full
    } else {
        damage_action(config, rows)
    }
}

pub fn cursor_damage_action(
    previous: &WgpuRetainedWorkspaceSnapshot,
    snapshot: &RenderSurfaceSnapshot,
    config: WgpuRendererConfig,
) -> (action: WgpuRetainedFrameAction)
    ensures
        action == cursor_damage(
            previous.snapshot.cursor,
            previous.renderer_config,
            snapshot.cursor,
            config,
        ),
{
    let mut rows: Vec<u32> = Vec::new();
    if let Some(cursor) = previous.snapshot.cursor {
        rows.push(cursor.y);
    }
    if let Some(cursor) = snapshot.cursor {
        rows.push(cursor.y);
    }
    if let Some(position) = previous.renderer_config.cursor_position_px {
        rows.push(pixel_row(config, position.y_px));
    }
    if let Some(position) = config.cursor_position_px {
        rows.push(pixel_row(config, position.y_px));
    }
    assert(rows@ =~= cursor_rows(
        previous.snapshot.cursor,
        previous.renderer_config,
        snapshot.cursor,
        config,
    ));
    if rows.len() == 0 {
        WgpuRetainedFrameAction::Full
    } else {
        damage_action_for_rows(config, rows.as_slice())
    }
}

// ---------------------------------------------------------------------------
// Scroll detection.
// ---------------------------------------------------------------------------

/// The runs of the first row numbered `y`, if the surface has one.
pub open spec fn row_runs(rows: Seq<RenderSurfaceRowSnapshot>, y: u32) -> Option<Seq<RunView>>
    decreases rows.len(),
{
    if rows.len() == 0 {
        None
    } else if rows[0].y == y {
        Some(runs_view(rows[0].runs@))
    } else {
        row_runs(rows.drop_first(), y)
    }
}

/// How many rows from `row` on, below `limit`, the current frame shows as
/// the previous frame showed them `shift` rows lower.
pub open spec fn kept_rows_from(
    previous: Seq<RenderSurfaceRowSnapshot>,
    current: Seq<RenderSurfaceRowSnapshot>,
    shift: u32,
    row: int,
    limit: int,
) -> int
    decreases limit - row,
{
    if row < limit && row_runs(previous, (row + shift) as u32) == row_runs(current, row as u32) {
        1 + kept_rows_from(previous, current, shift, row + 1, limit)
    } else {
        0
    }
}

/// How many leading rows a scroll by `shift` keeps.
pub open spec fn kept_rows(
    previous: Seq<RenderSurfaceRowSnapshot>,
    current: Seq<RenderSurfaceRowSnapshot>,
    shift: u32,
    grid_rows: u32,
) -> int {
    kept_rows_from(previous, current, shift, 0, grid_rows - shift)
}

/// The best scroll among shifts `1..upto`: one that keeps at least half the
/// grid, keeping the most rows; among equals, the largest shift.
pub open spec fn best_scroll(
    previous: Seq<RenderSurfaceRowSnapshot>,
    current: Seq<RenderSurfaceRowSnapshot>,
    grid_rows: u32,
    upto: int,
) -> Option<(u32, u32)>
    decreases upto,
{
    if upto <= 1 {
        None
    } else {
        let shift = (upto - 1) as u32;
        let best = best_scroll(previous, current, grid_rows, upto - 1);
        let kept = kept_rows(previous, current, shift, grid_rows);
        if kept >= grid_rows / 2 && (best matches Some(b) ==> kept >= b.1) {
            Some((shift, kept as u32))
        } else {
            best
        }
    }
}

proof fn lemma_kept_rows_bound(
    previous: Seq<RenderSurfaceRowSnapshot>,
    current: Seq<RenderSurfaceRowSnapshot>,
    shift: u32,
    row: int,
    limit: int,
)
    requires
        0 <= row <= limit,
    ensures
        0 <= kept_rows_from(previous, current, shift, row, limit) <= limit - row,
    decreases limit - row,
{
    if row < limit {
        lemma_kept_rows_bound(previous, current, shift, row + 1, limit);
    }
}

/// The runs of the first row numbered `y`.
fn find_row_runs(rows: &Vec<RenderSurfaceRowSnapshot>, y: u32) -> (found: Option<usize>)
    ensures
        found matches Some(i) ==> i < rows@.len() && row_runs(rows@, y) == Some(runs_view(rows@[i as int].runs@)),
        found is None ==> row_runs(rows@, y) is None,
{
    let mut i: usize = 0;
    assert(rows@.subrange(0, rows@.len() as int) =~= rows@);
    while i < rows.len()
        invariant
            i <= rows@.len(),
            row_runs(rows@, y) == row_runs(rows@.subrange(i as int, rows@.len() as int), y),
        decreases rows@.len() - i,
    {
        proof {
            let rest = rows@.subrange(i as int, rows@.len() as int);
            assert(rest.drop_first() =~= rows@.subrange(i as int + 1, rows@.len() as int));
            assert(rest[0] == rows@[i as int]);
        }
        if rows[i].y == y {
            return Some(i);
        }
        i = i + 1;
    }
    assert(rows@.subrange(i as int, rows@.len() as int) =~= Seq::<RenderSurfaceRowSnapshot>::empty());
    None
}

/// Whether row `row + shift` of the previous frame shows what row `row` of
/// the current frame shows.
fn row_kept(
    previous: &Vec<RenderSurfaceRowSnapshot>,
    current: &Vec<RenderSurfaceRowSnapshot>,
    previous_row: u32,
    current_row: u32,
) -> (r: bool)
    ensures
        r == (row_runs(previous@, previous_row) == row_runs(current@, current_row)),
{
    match (find_row_runs(previous, previous_row), find_row_runs(current, current_row)) {
        (Some(i), Some(j)) => same_runs(&previous[i].runs, &current[j].runs),
        (None, None) => true,
        _ => false,
    }
}

/// The leading rows a scroll by `shift` keeps.
fn count_kept_rows(
    previous: &Vec<RenderSurfaceRowSnapshot>,
    current: &Vec<RenderSurfaceRowSnapshot>,
    shift: u32,
    grid_rows: u32,
) -> (kept: u32)
    requires
        0 < shift < grid_rows,
    ensures
        kept == kept_rows(previous@, current@, shift, grid_rows),
{
    let limit = grid_rows - shift;
    let mut row: u32 = 0;
    while row < limit && row_kept(previous, current, row + shift, row)
        invariant
            row <= limit,
            limit == grid_rows - shift,
            0 < shift < grid_rows,
            kept_rows(previous@, current@, shift, grid_rows) == row + kept_rows_from(
                previous@,
                current@,
                shift,
                row as int,
                limit as int,
            ),
        decreases limit - row,
    {
        row = row + 1;
    }
    row
}

/// The scroll from the previous frame to the current one, as the shift and
/// the rows it keeps: among shifts that keep at least half the grid, one
/// that keeps the most rows, and among those the largest.
pub fn scroll_up_rows(
    previous: &RenderSurfaceSnapshot,
    current: &RenderSurfaceSnapshot,
    grid_rows: u32,
) -> (scroll: Option<(u32, u32)>)
    ensures
        scroll == best_scroll(previous.rows@, current.rows@, grid_rows, grid_rows as int),
{
    let mut best: Option<(u32, u32)> = None;
    let mut shift: u32 = 1;
    if grid_rows <= 1 {
        return None;
    }
    while shift < grid_rows
        invariant
            1 <= shift <= grid_rows,
            best == best_scroll(previous.rows@, current.rows@, grid_rows, shift as int),
        decreases grid_rows - shift,
    {
        let kept = count_kept_rows(&previous.rows, &current.rows, shift, grid_rows);
        let better = match best {
            Some((_, best_kept)) => kept >= best_kept,
            None => true,
        };
        if kept >= grid_rows / 2 && better {
            best = Some((shift, kept));
        }
        shift = shift + 1;
    }
    best
}

// ---------------------------------------------------------------------------
// The decision.
// ---------------------------------------------------------------------------

/// The row from which a scroll redraws: the first row below what it keeps,
/// moved up to the cursor in either frame when the cursor is higher.
pub open spec fn scroll_top_row(
    previous_cursor: Option<RenderSurfaceCursorSnapshot>,
    cursor: Option<RenderSurfaceCursorSnapshot>,
    rows: u32,
    preserved_rows: u32,
) -> u32 {
    let after_previous = match previous_cursor {
        Some(c) => if c.y >= rows && c.y - rows < preserved_rows {
            (c.y - rows) as u32
        } else {
            preserved_rows
        },
        None => preserved_rows,
    };
    match cursor {
        Some(c) => if c.y < after_previous {
            c.y
        } else {
            after_previous
        },
        None => after_previous,
    }
}

/// What to do with the retained texture for the current frame: redraw it
/// all without a previous frame, after a change of background or layout, or
/// when nothing is marked dirty; for the same sequence number, reuse it when
/// nothing changed at all, else redraw the cursor's rows; after a scroll that
/// keeps at least half the grid, shift it and redraw below what was kept;
/// else redraw the dirty rows.
pub open spec fn retained_action(
    previous: Option<(crate::render_surface::SurfaceView, WgpuRendererConfig)>,
    snapshot: crate::render_surface::SurfaceView,
    previous_rows: Seq<RenderSurfaceRowSnapshot>,
    rows: Seq<RenderSurfaceRowSnapshot>,
    config: WgpuRendererConfig,
) -> WgpuRetainedFrameAction {
    match previous {
        None => WgpuRetainedFrameAction::Full,
        Some((prev, prev_config)) => {
            if prev.default_background != snapshot.default_background || stable_config(prev_config)
                != stable_config(config) || snapshot.dirty_rows.len() == 0 {
                WgpuRetainedFrameAction::Full
            } else if prev.latest_seq == snapshot.latest_seq {
                if prev == snapshot && prev_config == config {
                    WgpuRetainedFrameAction::Reuse
                } else {
                    cursor_damage(prev.cursor, prev_config, snapshot.cursor, config)
                }
            } else {
                match best_scroll(previous_rows, rows, config.grid_rows, config.grid_rows as int) {
                    Some((shift, preserved)) => WgpuRetainedFrameAction::ScrollUp {
                        rows: shift,
                        preserved_rows: preserved,
                        top_px: row_top(
                            config,
                            scroll_top_row(prev.cursor, snapshot.cursor, shift, preserved),
                        ) as u32,
                        bottom_px: content_bottom(config) as u32,
                    },
                    None => damage_action(config, snapshot.dirty_rows),
                }
            }
        },
    }
}

/// Whether an action redraws row `row`: a full redraw does, and so does a
/// damaged band that reaches from the row's top to its bottom.
pub open spec fn action_covers_row(action: WgpuRetainedFrameAction, config: WgpuRendererConfig, row: u32) -> bool {
    match action {
        WgpuRetainedFrameAction::Full => true,
        WgpuRetainedFrameAction::Damage { top_px, bottom_px } => top_px <= row_top(config, row) && sat_add_u32(
            row_top(config, row),
            row_height(config, row),
        ) <= bottom_px,
        _ => false,
    }
}

proof fn lemma_rows_below_limit(rows: Seq<u32>, limit: u32)
    ensures
        least_row_below(rows, limit) matches Some(m) ==> m < limit,
        greatest_row_below(rows, limit) matches Some(m) ==> m < limit,
    decreases rows.len(),
{
    if rows.len() > 0 {
        lemma_rows_below_limit(rows.drop_last(), limit);
    }
}

proof fn lemma_rows_bound_member(rows: Seq<u32>, limit: u32, k: int)
    requires
        0 <= k < rows.len(),
        rows[k] < limit,
    ensures
        least_row_below(rows, limit) matches Some(m) && m <= rows[k],
        greatest_row_below(rows, limit) matches Some(m) && m >= rows[k],
    decreases rows.len(),
{
    if k < rows.len() - 1 {
        lemma_rows_bound_member(rows.drop_last(), limit, k);
    }
}

proof fn lemma_row_offset_ordered(config: WgpuRendererConfig, a: u32, b: u32)
    requires
        a <= b <= config.grid_rows,
        config.grid_rows >= 1,
    ensures
        0 <= row_offset(config, a) <= row_offset(config, b),
{
    let rows = config.grid_rows as int;
    let height = config.content_height_px as int;
    vstd::arithmetic::mul::lemma_mul_inequality(a as int, b as int, height);
    assert(0 <= (a as int) * height) by (nonlinear_arith)
        requires
            a >= 0,
            height >= 0,
    ;
    vstd::arithmetic::div_mod::lemma_div_is_ordered((a as int) * height, (b as int) * height, rows);
    vstd::arithmetic::div_mod::lemma_div_is_ordered(0, (a as int) * height, rows);
}

proof fn lemma_row_span_ordered(config: WgpuRendererConfig, a: u32, b: u32)
    requires
        a <= b < config.grid_rows,
    ensures
        0 <= row_top(config, a) <= row_top(config, b) <= u32::MAX,
        row_height(config, a) >= 1,
        sat_add_u32(row_top(config, a), row_height(config, a)) <= sat_add_u32(
            row_top(config, b),
            row_height(config, b),
        ),
{
    lemma_row_offset_ordered(config, a, b);
    lemma_row_offset_ordered(config, a, (a + 1) as u32);
    lemma_row_offset_ordered(config, b, (b + 1) as u32);
    lemma_row_offset_ordered(config, (a + 1) as u32, (b + 1) as u32);
    let origin = config.content_origin_y as int;
    let end_a = if row_offset(config, (a + 1) as u32) > row_offset(config, a) + 1 {
        row_offset(config, (a + 1) as u32)
    } else {
        row_offset(config, a) + 1
    };
    let end_b = if row_offset(config, (b + 1) as u32) > row_offset(config, b) + 1 {
        row_offset(config, (b + 1) as u32)
    } else {
        row_offset(config, b) + 1
    };
    assert(row_offset(config, a) + row_height(config, a) == end_a);
    assert(row_offset(config, b) + row_height(config, b) == end_b);
    assert(end_a <= end_b);
    assert(sat_add_u32(row_top(config, a), row_height(config, a)) == sat_add_u32(origin, end_a));
    assert(sat_add_u32(row_top(config, b), row_height(config, b)) == sat_add_u32(origin, end_b));
}

proof fn lemma_damage_covers_member(config: WgpuRendererConfig, rows: Seq<u32>, k: int)
    requires
        0 <= k < rows.len(),
        rows[k] < config.grid_rows,
    ensures
        action_covers_row(damage_action(config, rows), config, rows[k]),
{
    lemma_rows_bound_member(rows, config.grid_rows, k);
    lemma_rows_below_limit(rows, config.grid_rows);
    let min_row = least_row_below(rows, config.grid_rows)->Some_0;
    let max_row = greatest_row_below(rows, config.grid_rows)->Some_0;
    lemma_row_span_ordered(config, min_row, rows[k]);
    lemma_row_span_ordered(config, rows[k], max_row);
}

/// When the cursor alone may have changed, the old cursor's row and the new
/// one's (those on the grid) are both redrawn, so no cursor is left behind.
pub proof fn law_cursor_damage_covers_both_cursor_rows(
    previous_cursor: Option<RenderSurfaceCursorSnapshot>,
    previous_config: WgpuRendererConfig,
    cursor: Option<RenderSurfaceCursorSnapshot>,
    config: WgpuRendererConfig,
)
    ensures
        match previous_cursor {
            Some(c) => c.y < config.grid_rows ==> action_covers_row(
                cursor_damage(previous_cursor, previous_config, cursor, config),
                config,
                c.y,
            ),
            None => true,
        },
        match cursor {
            Some(c) => c.y < config.grid_rows ==> action_covers_row(
                cursor_damage(previous_cursor, previous_config, cursor, config),
                config,
                c.y,
            ),
            None => true,
        },
{
    let rows = cursor_rows(previous_cursor, previous_config, cursor, config);
    if let Some(c) = previous_cursor {
        assert(rows[0] == c.y);
        if c.y < config.grid_rows {
            lemma_damage_covers_member(config, rows, 0);
        }
    }
    if let Some(c) = cursor {
        let k: int = if previous_cursor is Some {
            1
        } else {
            0
        };
        assert(rows[k] == c.y);
        if c.y < config.grid_rows {
            lemma_damage_covers_member(config, rows, k);
        }
    }
}

/// A frame with the same sequence number as the retained one that is not
/// identical to it redraws everything, or a band that takes in the rows of
/// both the retained frame's cursor and the current one.
pub proof fn law_same_sequence_frame_redraws_both_cursor_rows(
    previous: (crate::render_surface::SurfaceView, WgpuRendererConfig),
    snapshot: crate::render_surface::SurfaceView,
    previous_rows: Seq<RenderSurfaceRowSnapshot>,
    rows: Seq<RenderSurfaceRowSnapshot>,
    config: WgpuRendererConfig,
)
    requires
        previous.0.latest_seq == snapshot.latest_seq,
        !(previous.0 == snapshot && previous.1 == config),
    ensures
        match previous.0.cursor {
            Some(c) => c.y < config.grid_rows ==> action_covers_row(
                retained_action(Some(previous), snapshot, previous_rows, rows, config),
                config,
                c.y,
            ),
            None => true,
        },
        match snapshot.cursor {
            Some(c) => c.y < config.grid_rows ==> action_covers_row(
                retained_action(Some(previous), snapshot, previous_rows, rows, config),
                config,
                c.y,
            ),
            None => true,
        },
{
    law_cursor_damage_covers_both_cursor_rows(previous.0.cursor, previous.1, snapshot.cursor, config);
}

pub fn retained_frame_action(
    previous: Option<&WgpuRetainedWorkspaceSnapshot>,
    snapshot: &RenderSurfaceSnapshot,
    config: WgpuRendererConfig,
) -> (action: WgpuRetainedFrameAction)
    ensures
        action == retained_action(
            match previous {
                Some(p) => Some((p.snapshot@, p.renderer_config)),
                None => None,
            },
            snapshot@,
            match previous {
                Some(p) => p.snapshot.rows@,
                None => Seq::empty(),
            },
            snapshot.rows@,
            config,
        ),
{
    let previous = match previous {
        Some(previous) => previous,
        None => return WgpuRetainedFrameAction::Full,
    };
    if previous.snapshot.default_background != snapshot.default_background || stable_renderer_config(
        previous.renderer_config,
    ) != stable_renderer_config(config) || snapshot.dirty_rows.len() == 0 {
        return WgpuRetainedFrameAction::Full;
    }
    if previous.snapshot.latest_seq == snapshot.latest_seq {
        if same_surface(&previous.snapshot, snapshot) && previous.renderer_config == config {
            return WgpuRetainedFrameAction::Reuse;
        }
        return cursor_damage_action(previous, snapshot, config);
    }
    if let Some((rows, preserved_rows)) = scroll_up_rows(&previous.snapshot, snapshot, config.grid_rows) {
        let mut top_row = preserved_rows;
        if let Some(cursor) = previous.snapshot.cursor {
            if cursor.y >= rows {
                let moved = cursor.y - rows;
                if moved < top_row {
                    top_row = moved;
                }
            }
        }
        if let Some(cursor) = snapshot.cursor {
            if cursor.y < top_row {
                top_row = cursor.y;
            }
        }
        return WgpuRetainedFrameAction::ScrollUp {
            rows,
            preserved_rows,
            top_px: config.row_top_px(top_row),
            bottom_px: config.content_origin_y.saturating_add(config.content_height_px),
        };
    }
    damage_action_for_rows(config, snapshot.dirty_rows.as_slice())
}

} // verus!
