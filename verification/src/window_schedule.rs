use vstd::prelude::*;
use crate::ids::RenderTargetId;
use crate::render_surface::RenderSurfaceCursorSnapshot;
use crate::retained_frame::{at_least_one, sat_add_u32, sat_sub_u32};

verus! {

// ---------------------------------------------------------------------------
// Where render targets sit in the window.
// ---------------------------------------------------------------------------

/// Where a render target is drawn in the window, in pixels.
#[derive(Debug, Clone, Copy, PartialEq, Eq, Structural)]
pub struct RenderSurfacePlacement {
    pub target_id: RenderTargetId,
    pub x_px: u32,
    pub y_px: u32,
    pub width_px: u32,
    pub height_px: u32,
}

impl RenderSurfacePlacement {
    pub fn new(target_id: RenderTargetId, x_px: u32, y_px: u32, width_px: u32, height_px: u32) -> (placement: Self)
        ensures
            placement == (RenderSurfacePlacement { target_id, x_px, y_px, width_px, height_px }),
    {
        RenderSurfacePlacement { target_id, x_px, y_px, width_px, height_px }
    }
}

/// Whether the workspace layout places the target.
pub open spec fn target_placed(placements: Seq<RenderSurfacePlacement>, target_id: RenderTargetId) -> bool {
    exists|i: int| 0 <= i < placements.len() && (#[trigger] placements[i]).target_id == target_id
}

pub fn render_target_is_visible(placements: &[RenderSurfacePlacement], target_id: RenderTargetId) -> (visible: bool)
    ensures
        visible == target_placed(placements@, target_id),
{
    let mut i: usize = 0;
    while i < placements.len()
        invariant
            i <= placements@.len(),
            forall|j: int| 0 <= j < i ==> (#[trigger] placements@[j]).target_id != target_id,
        decreases placements@.len() - i,
    {
        if placements[i].target_id == target_id {
            return true;
        }
        i = i + 1;
    }
    false
}

// ---------------------------------------------------------------------------
// Cursor motion.
// ---------------------------------------------------------------------------

/// A cursor move is an enter when it lands at the start of a line from
/// anywhere else.
pub open spec fn enter_motion(previous: RenderSurfaceCursorSnapshot, next: RenderSurfaceCursorSnapshot) -> bool {
    next.x == 0 && (previous.x != next.x || previous.y != next.y)
}

pub fn is_enter_cursor_motion(previous: RenderSurfaceCursorSnapshot, next: RenderSurfaceCursorSnapshot) -> (r: bool)
    ensures
        r == enter_motion(previous, next),
{
    next.x == 0 && (previous.x != next.x || previous.y != next.y)
}

/// A carriage return alone (back to the start of the same line, from further
/// right) starts a motion that waits briefly for a line feed.
pub open spec fn waits_for_line_feed(previous: RenderSurfaceCursorSnapshot, next: RenderSurfaceCursorSnapshot) -> bool {
    previous.x > 0 && next.x == 0 && previous.y == next.y
}

pub fn cursor_motion_waits_for_line_feed(
    previous: RenderSurfaceCursorSnapshot,
    next: RenderSurfaceCursorSnapshot,
) -> (r: bool)
    ensures
        r == waits_for_line_feed(previous, next),
{
    previous.x > 0 && next.x == 0 && previous.y == next.y
}

/// A line feed that follows a waiting carriage return, down from the start
/// of a line to the start of another before the waiting motion has begun,
/// joins that motion into one diagonal move instead of starting another.
pub open spec fn line_feed_joins_motion(
    waiting_for_line_feed: bool,
    motion_started_at: u64,
    previous: RenderSurfaceCursorSnapshot,
    next: RenderSurfaceCursorSnapshot,
    now: u64,
) -> bool {
    waiting_for_line_feed && previous.x == 0 && next.x == 0 && previous.y != next.y && now <= motion_started_at
}

pub fn cursor_line_feed_joins_motion(
    waiting_for_line_feed: bool,
    motion_started_at: u64,
    previous: RenderSurfaceCursorSnapshot,
    next: RenderSurfaceCursorSnapshot,
    now: u64,
) -> (r: bool)
    ensures
        r == line_feed_joins_motion(waiting_for_line_feed, motion_started_at, previous, next, now),
{
    waiting_for_line_feed && previous.x == 0 && next.x == 0 && previous.y != next.y && now <= motion_started_at
}

/// How long a carriage return waits for a line feed: a frame, at most 8 ms
/// (times in nanoseconds).
pub open spec fn coalesce_delay(frame_interval: u64) -> u64 {
    if frame_interval < 8_000_000 {
        frame_interval
    } else {
        8_000_000
    }
}

/// When a new cursor motion starts: after the coalescing delay when it waits
/// for a line feed, else at once (times in nanoseconds).
pub fn cursor_motion_start(now: u64, frame_interval: u64, waiting_for_line_feed: bool) -> (started_at: u64)
    requires
        now + coalesce_delay(frame_interval) <= u64::MAX,
    ensures
        started_at == if waiting_for_line_feed {
            now + coalesce_delay(frame_interval)
        } else {
            now as int
        },
{
    let delay = if frame_interval < 8_000_000 {
        frame_interval
    } else {
        8_000_000
    };
    if waiting_for_line_feed {
        now + delay
    } else {
        now
    }
}

// ---------------------------------------------------------------------------
// The input method's cursor area.
// ---------------------------------------------------------------------------

/// The grid of a pane: where it starts inside its placement, its cell
/// width, its size in cells and the height its rows share.
#[derive(Debug, Clone, Copy, PartialEq, Eq, Structural)]
pub struct PaneGrid {
    pub origin_x_px: u32,
    pub origin_y_px: u32,
    pub cell_width_px: u32,
    pub columns: u32,
    pub rows: u32,
    pub content_height_px: u32,
}

/// Where row `row` starts below the grid's top: rows share the content
/// height, row `r` of `n` starting at `r * height / n`.
pub open spec fn grid_row_offset(grid: PaneGrid, row: u32) -> int {
    let rows = at_least_one(grid.rows as int);
    let r = if (row as int) < rows {
        row as int
    } else {
        rows
    };
    r * grid.content_height_px / rows
}

pub open spec fn sat_mul_u32(a: int, b: int) -> int {
    if a * b > u32::MAX {
        u32::MAX as int
    } else {
        a * b
    }
}

/// The input method's cursor area: the cell of the cursor (or where
/// composed text leaves it) in window pixels, a cell wide and a row high.
pub open spec fn ime_area(
    placement: RenderSurfacePlacement,
    grid: PaneGrid,
    cell: (u32, u32),
) -> ((u32, u32), (u32, u32)) {
    let (cx, cy) = cell;
    let x = sat_add_u32(sat_add_u32(placement.x_px as int, grid.origin_x_px as int), sat_mul_u32(cx as int, grid.cell_width_px as int));
    let top = grid_row_offset(grid, cy);
    let height = at_least_one(sat_sub_u32(grid_row_offset(grid, sat_add_u32(cy as int, 1) as u32), top));
    let y = sat_add_u32(sat_add_u32(placement.y_px as int, grid.origin_y_px as int), top);
    ((x as u32, y as u32), (at_least_one(grid.cell_width_px as int) as u32, height as u32))
}

fn row_offset_px(grid: PaneGrid, row: u32) -> (offset: u32)
    ensures
        offset == grid_row_offset(grid, row),
{
    let rows: u32 = if grid.rows < 1 {
        1
    } else {
        grid.rows
    };
    let r: u32 = if row < rows {
        row
    } else {
        rows
    };
    let height = grid.content_height_px;
    assert((r as int) * (height as int) <= 0xffff_ffff * 0xffff_ffff) by (nonlinear_arith)
        requires
            r <= 0xffff_ffff,
            height <= 0xffff_ffff,
    ;
    assert((r as int) * (height as int) / (rows as int) <= height) by (nonlinear_arith)
        requires
            r <= rows,
            rows >= 1,
    ;
    let offset: u64 = (r as u64 * height as u64) / rows as u64;
    offset as u32
}

fn saturating_times(a: u32, b: u32) -> (r: u32)
    ensures
        r == sat_mul_u32(a as int, b as int),
{
    if b == 0 {
        0
    } else if a > u32::MAX / b {
        assert(a * b > u32::MAX) by (nonlinear_arith)
            requires
                a > u32::MAX / b,
                b > 0,
        ;
        u32::MAX
    } else {
        assert(a * b <= u32::MAX) by (nonlinear_arith)
            requires
                a <= u32::MAX / b,
                b > 0,
        ;
        a * b
    }
}

/// The input method's cursor area for a pane's snapshot: none without a
/// cursor; else the cell where composed text leaves the cursor
/// (`preedit_cell`, when the snapshot composes text), or the cursor's own.
pub fn ime_cursor_area(
    placement: RenderSurfacePlacement,
    grid: PaneGrid,
    cursor: Option<RenderSurfaceCursorSnapshot>,
    preedit_cell: Option<(u32, u32)>,
) -> (area: Option<((u32, u32), (u32, u32))>)
    ensures
        area == match cursor {
            None => None,
            Some(c) => Some(
                ime_area(
                    placement,
                    grid,
                    match preedit_cell {
                        Some(cell) => cell,
                        None => (c.x, c.y),
                    },
                ),
            ),
        },
{
    let cursor = match cursor {
        Some(c) => c,
        None => {
            return None;
        },
    };
    let (cursor_x, cursor_y) = match preedit_cell {
        Some(cell) => cell,
        None => (cursor.x, cursor.y),
    };
    let x = placement.x_px.saturating_add(grid.origin_x_px).saturating_add(
        saturating_times(cursor_x, grid.cell_width_px),
    );
    let row_top = row_offset_px(grid, cursor_y);
    let bottom = row_offset_px(grid, cursor_y.saturating_add(1));
    let row_height = bottom.saturating_sub(row_top);
    let row_height = if row_height < 1 {
        1
    } else {
        row_height
    };
    let y = placement.y_px.saturating_add(grid.origin_y_px).saturating_add(row_top);
    let width = if grid.cell_width_px < 1 {
        1
    } else {
        grid.cell_width_px
    };
    Some(((x, y), (width, row_height)))
}

// ---------------------------------------------------------------------------
// When to render next.
// ---------------------------------------------------------------------------

/// The render deadlines of a window, in nanoseconds on one clock: whether
/// the window is hidden, whether a redraw is wanted and when the next frame
/// may be presented, when the cursor blinks next, when the next frame of a
/// cursor motion or an animated background is due, and the two intervals.
#[derive(Debug, Clone, Copy, PartialEq, Eq, Structural)]
pub struct WgpuRenderSchedule {
    pub window_occluded: bool,
    pub needs_redraw: bool,
    pub next_present_at: u64,
    pub next_cursor_blink_at: Option<u64>,
    pub next_cursor_motion_frame_at: Option<u64>,
    pub next_background_frame_at: Option<u64>,
    pub frame_interval: u64,
    pub cursor_blink_interval: u64,
}

pub open spec fn earliest(a: Option<u64>, b: Option<u64>) -> Option<u64> {
    match (a, b) {
        (Some(x), Some(y)) => Some(if x <= y {
            x
        } else {
            y
        }),
        (Some(x), None) => Some(x),
        (None, y) => y,
    }
}

pub open spec fn due(deadline: Option<u64>, now: u64) -> bool {
    deadline matches Some(d) && d <= now
}

/// The next deadline after `now`: `now` plus the interval.
pub open spec fn after(now: u64, interval: u64) -> u64 {
    (now + interval) as u64
}

fn earliest_of(a: Option<u64>, b: Option<u64>) -> (r: Option<u64>)
    ensures
        r == earliest(a, b),
{
    match (a, b) {
        (Some(x), Some(y)) => Some(if x <= y {
            x
        } else {
            y
        }),
        (Some(x), None) => Some(x),
        (None, y) => y,
    }
}

impl WgpuRenderSchedule {
    /// The earliest deadline of the blink, the cursor motion, the animated
    /// background and a wanted redraw; none while the window is hidden.
    pub open spec fn deadline(self) -> Option<u64> {
        if self.window_occluded {
            None
        } else {
            earliest(
                earliest(
                    earliest(self.next_cursor_blink_at, self.next_cursor_motion_frame_at),
                    self.next_background_frame_at,
                ),
                if self.needs_redraw {
                    Some(self.next_present_at)
                } else {
                    None
                },
            )
        }
    }

    pub fn next_render_deadline(&self) -> (deadline: Option<u64>)
        ensures
            deadline == self.deadline(),
    {
        if self.window_occluded {
            return None;
        }
        let redraw = if self.needs_redraw {
            Some(self.next_present_at)
        } else {
            None
        };
        earliest_of(
            earliest_of(earliest_of(self.next_cursor_blink_at, self.next_cursor_motion_frame_at), self.next_background_frame_at),
            redraw,
        )
    }

    /// Whether a frame is due at `now`; each due deadline other than a
    /// redraw moves one interval past `now`. A hidden window has none due
    /// and keeps its deadlines.
    pub fn take_due_render_deadline(&mut self, now: u64) -> (is_due: bool)
        requires
            !old(self).window_occluded && due(old(self).next_cursor_blink_at, now) ==> now
                + old(self).cursor_blink_interval <= u64::MAX,
            !old(self).window_occluded && (due(old(self).next_cursor_motion_frame_at, now) || due(
                old(self).next_background_frame_at,
                now,
            )) ==> now + old(self).frame_interval <= u64::MAX,
        ensures
            old(self).window_occluded ==> !is_due && *final(self) == *old(self),
            !old(self).window_occluded ==> {
                &&& is_due == (due(old(self).next_cursor_blink_at, now) || due(
                    old(self).next_cursor_motion_frame_at,
                    now,
                ) || due(old(self).next_background_frame_at, now) || (old(self).needs_redraw
                    && old(self).next_present_at <= now))
                &&& final(self).next_cursor_blink_at == if due(old(self).next_cursor_blink_at, now) {
                    Some(after(now, old(self).cursor_blink_interval))
                } else {
                    old(self).next_cursor_blink_at
                }
                &&& final(self).next_cursor_motion_frame_at == if due(
                    old(self).next_cursor_motion_frame_at,
                    now,
                ) {
                    Some(after(now, old(self).frame_interval))
                } else {
                    old(self).next_cursor_motion_frame_at
                }
                &&& final(self).next_background_frame_at == if due(old(self).next_background_frame_at, now) {
                    Some(after(now, old(self).frame_interval))
                } else {
                    old(self).next_background_frame_at
                }
                &&& final(self).window_occluded == old(self).window_occluded
                &&& final(self).needs_redraw == old(self).needs_redraw
                &&& final(self).next_present_at == old(self).next_present_at
                &&& final(self).frame_interval == old(self).frame_interval
                &&& final(self).cursor_blink_interval == old(self).cursor_blink_interval
            },
    {
        if self.window_occluded {
            return false;
        }
        let cursor_due = match self.next_cursor_blink_at {
            Some(deadline) => deadline <= now,
            None => false,
        };
        if cursor_due {
            self.next_cursor_blink_at = Some(now + self.cursor_blink_interval);
        }
        let cursor_motion_due = match self.next_cursor_motion_frame_at {
            Some(deadline) => deadline <= now,
            None => false,
        };
        if cursor_motion_due {
            self.next_cursor_motion_frame_at = Some(now + self.frame_interval);
        }
        let background_due = match self.next_background_frame_at {
            Some(deadline) => deadline <= now,
            None => false,
        };
        if background_due {
            self.next_background_frame_at = Some(now + self.frame_interval);
        }
        let redraw_due = self.needs_redraw && self.next_present_at <= now;
        cursor_due || cursor_motion_due || background_due || redraw_due
    }

    pub fn schedule_redraw(&mut self)
        ensures
            *final(self) == (WgpuRenderSchedule { needs_redraw: true, ..*old(self) }),
    {
        self.needs_redraw = true;
    }

    /// Takes a wanted redraw when the window shows and the next frame may be
    /// presented at `now`.
    pub fn take_redraw_request(&mut self, now: u64) -> (taken: bool)
        ensures
            taken == (!old(self).window_occluded && old(self).needs_redraw && now >= old(self).next_present_at),
            *final(self) == if taken {
                WgpuRenderSchedule { needs_redraw: false, ..*old(self) }
            } else {
                *old(self)
            },
    {
        if self.window_occluded || !self.needs_redraw || now < self.next_present_at {
            return false;
        }
        self.needs_redraw = false;
        true
    }

    /// Hides or shows the window. Hiding drops the background deadline;
    /// showing makes a frame presentable at `now`, restarts the animated
    /// background and an active cursor motion at `now`, and wants a redraw.
    pub fn set_window_occluded(
        &mut self,
        occluded: bool,
        now: u64,
        background_animated: bool,
        cursor_motion_active: bool,
    )
        ensures
            old(self).window_occluded == occluded ==> *final(self) == *old(self),
            old(self).window_occluded != occluded && occluded ==> *final(self) == (WgpuRenderSchedule {
                window_occluded: true,
                next_background_frame_at: None,
                ..*old(self)
            }),
            old(self).window_occluded != occluded && !occluded ==> *final(self) == (WgpuRenderSchedule {
                window_occluded: false,
                next_present_at: now,
                next_background_frame_at: if background_animated {
                    Some(now)
                } else {
                    None
                },
                next_cursor_motion_frame_at: if cursor_motion_active {
                    Some(now)
                } else {
                    None
                },
                needs_redraw: true,
                ..*old(self)
            }),
    {
        if self.window_occluded == occluded {
            return;
        }
        self.window_occluded = occluded;
        if occluded {
            self.next_background_frame_at = None;
            return;
        }
        self.next_present_at = now;
        self.next_background_frame_at = if background_animated {
            Some(now)
        } else {
            None
        };
        self.next_cursor_motion_frame_at = if cursor_motion_active {
            Some(now)
        } else {
            None
        };
        self.schedule_redraw();
    }
}

/// A hidden window has no deadline and nothing due, whatever the time.
pub proof fn lemma_hidden_window_renders_nothing(schedule: WgpuRenderSchedule)
    requires
        schedule.window_occluded,
    ensures
        schedule.deadline() is None,
{
}

/// Nothing is due before the earliest deadline: when `now` is earlier than
/// the deadline (or there is none), no deadline has passed and no redraw is
/// presentable.
pub proof fn lemma_nothing_due_before_the_deadline(schedule: WgpuRenderSchedule, now: u64)
    requires
        !schedule.window_occluded,
        match schedule.deadline() {
            Some(d) => now < d,
            None => true,
        },
    ensures
        !due(schedule.next_cursor_blink_at, now),
        !due(schedule.next_cursor_motion_frame_at, now),
        !due(schedule.next_background_frame_at, now),
        !(schedule.needs_redraw && schedule.next_present_at <= now),
{
}

} // verus!
