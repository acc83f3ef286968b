use vstd::prelude::*;
use crate::colors::TextStyleDto;
use crate::decimal::{decimal_text, push_decimal};
use crate::ids::{RenderTargetId, SeqNo};
use crate::quad_plan::RgbaColorDto;
use crate::renderer_backend::PixelFillRect;

verus! {

/// The plain text of one row of a terminal snapshot.
#[derive(Debug, Clone, PartialEq, Eq)]
pub struct TerminalLineSnapshot {
    pub row: u32,
    pub text: String,
}

/// A styled run of text in a terminal snapshot.
#[derive(Debug, Clone, PartialEq, Eq)]
pub struct TerminalTextRunSnapshot {
    pub x: u32,
    pub y: u32,
    pub text: String,
    pub style: TextStyleDto,
}

/// What a terminal shows: its rows' plain text, its styled runs, and the
/// rows that changed since it was last drawn.
#[derive(Debug, Clone, PartialEq, Eq)]
pub struct TerminalSnapshot {
    pub render_target_id: RenderTargetId,
    pub latest_seq: SeqNo,
    pub lines: Vec<TerminalLineSnapshot>,
    pub text_runs: Vec<TerminalTextRunSnapshot>,
    pub dirty_rows: Vec<u32>,
}

/// One drawing command of a frame plan: clear the surface or a row, write a
/// run of text, fill a rectangle of pixels, or place an image, given as PNG
/// bytes or as a slot of a shared RGBA frame file.
#[derive(Debug, Clone, PartialEq, Eq)]
pub enum RenderCommandDto {
    Clear,
    ClearLine { y: u32 },
    TextRun { x: u32, y: u32, text: String },
    StyledTextRun { x: u32, y: u32, text: String, style: TextStyleDto },
    PixelFillRect { x_px: u32, y_px: u32, width_px: u32, height_px: u32, color: RgbaColorDto },
    PngSurface { id: String, generation: u64, x_px: u32, y_px: u32, width_px: u32, height_px: u32, png: Vec<u8> },
    SharedRgbaSurface {
        id: String,
        generation: u64,
        path: String,
        slot: u32,
        x_px: u32,
        y_px: u32,
        width_px: u32,
        height_px: u32,
        stride_bytes: u32,
    },
}

/// A drawing command seen as plain values.
pub enum RenderCommandView {
    Clear,
    ClearLine { y: u32 },
    TextRun { x: u32, y: u32, text: Seq<char> },
    StyledTextRun { x: u32, y: u32, text: Seq<char>, style: TextStyleDto },
    PixelFillRect { rect: PixelFillRect },
    PngSurface { id: Seq<char>, generation: u64, x_px: u32, y_px: u32, width_px: u32, height_px: u32, png: Seq<u8> },
    SharedRgbaSurface {
        id: Seq<char>,
        generation: u64,
        path: Seq<char>,
        slot: u32,
        x_px: u32,
        y_px: u32,
        width_px: u32,
        height_px: u32,
        stride_bytes: u32,
    },
}

impl View for RenderCommandDto {
    type V = RenderCommandView;

    open spec fn view(&self) -> RenderCommandView {
        match self {
            RenderCommandDto::Clear => RenderCommandView::Clear,
            RenderCommandDto::ClearLine { y } => RenderCommandView::ClearLine { y: *y },
            RenderCommandDto::TextRun { x, y, text } => RenderCommandView::TextRun {
                x: *x,
                y: *y,
                text: text@,
            },
            RenderCommandDto::StyledTextRun { x, y, text, style } => RenderCommandView::StyledTextRun {
                x: *x,
                y: *y,
                text: text@,
                style: *style,
            },
            RenderCommandDto::PixelFillRect { x_px, y_px, width_px, height_px, color } => RenderCommandView::PixelFillRect {
                rect: PixelFillRect {
                    x_px: *x_px,
                    y_px: *y_px,
                    width_px: *width_px,
                    height_px: *height_px,
                    color: *color,
                },
            },
            RenderCommandDto::PngSurface { id, generation, x_px, y_px, width_px, height_px, png } => RenderCommandView::PngSurface {
                id: id@,
                generation: *generation,
                x_px: *x_px,
                y_px: *y_px,
                width_px: *width_px,
                height_px: *height_px,
                png: png@,
            },
            RenderCommandDto::SharedRgbaSurface {
                id,
                generation,
                path,
                slot,
                x_px,
                y_px,
                width_px,
                height_px,
                stride_bytes,
            } => RenderCommandView::SharedRgbaSurface {
                id: id@,
                generation: *generation,
                path: path@,
                slot: *slot,
                x_px: *x_px,
                y_px: *y_px,
                width_px: *width_px,
                height_px: *height_px,
                stride_bytes: *stride_bytes,
            },
        }
    }
}

pub open spec fn commands_view(commands: Seq<RenderCommandDto>) -> Seq<RenderCommandView> {
    commands.map_values(|c: RenderCommandDto| c@)
}

/// A request for the frame plan of one render target at one sequence number.
#[derive(Debug, Clone, Copy, PartialEq, Eq)]
pub struct BuildFramePlanTask {
    pub target_id: RenderTargetId,
    pub seq: SeqNo,
}

/// The drawing commands of one frame of one render target.
#[derive(Debug, Clone, PartialEq, Eq)]
pub struct BuiltFramePlan {
    pub target_id: RenderTargetId,
    pub seq: SeqNo,
    pub commands: Vec<RenderCommandDto>,
}

/// Where terminal snapshots come from.
pub trait TerminalSnapshotProvider {
    /// The current snapshot of a render target, if it has one.
    fn snapshot_of(&self, render_target_id: RenderTargetId) -> Option<TerminalSnapshot>;

    /// The snapshot to build the frame of `build_seq` from.
    fn snapshot_for_build(&self, render_target_id: RenderTargetId, build_seq: SeqNo) -> Option<
        TerminalSnapshot,
    > {
        self.snapshot_of(render_target_id)
    }
}

// ---------------------------------------------------------------------------
// Which rows are drawn, and with what.
// ---------------------------------------------------------------------------

/// Whether `s` is strictly increasing.
pub open spec fn increasing(s: Seq<u32>) -> bool {
    forall|i: int, j: int| 0 <= i < j < s.len() ==> #[trigger] s[i] < #[trigger] s[j]
}

/// A row has a line of plain text.
pub open spec fn has_line(lines: Seq<TerminalLineSnapshot>, row: u32) -> bool {
    exists|k: int| 0 <= k < lines.len() && #[trigger] lines[k].row == row
}

/// A row has a styled run.
pub open spec fn has_run(runs: Seq<TerminalTextRunSnapshot>, row: u32) -> bool {
    exists|k: int| 0 <= k < runs.len() && #[trigger] runs[k].y == row
}

/// The rows a frame draws: the dirty rows when there are any, else every
/// row with a line or a run.
pub open spec fn row_is_drawn(snapshot: TerminalSnapshot, row: u32) -> bool {
    if snapshot.dirty_rows@.len() > 0 {
        snapshot.dirty_rows@.contains(row)
    } else {
        has_line(snapshot.lines@, row) || has_run(snapshot.text_runs@, row)
    }
}

/// The plain text of a row: that of the last line for it.
pub open spec fn line_text_of(lines: Seq<TerminalLineSnapshot>, row: u32) -> Option<Seq<char>>
    decreases lines.len(),
{
    if lines.len() == 0 {
        None
    } else if lines.last().row == row {
        Some(lines.last().text@)
    } else {
        line_text_of(lines.drop_last(), row)
    }
}

/// The styled runs of a row that have text, in order, as commands.
pub open spec fn styled_run_commands(runs: Seq<TerminalTextRunSnapshot>, row: u32) -> Seq<
    RenderCommandView,
>
    decreases runs.len(),
{
    if runs.len() == 0 {
        Seq::empty()
    } else {
        let run = runs.last();
        styled_run_commands(runs.drop_last(), row) + (if run.y == row && run.text@.len() > 0 {
            seq![
                RenderCommandView::StyledTextRun {
                    x: run.x,
                    y: run.y,
                    text: run.text@,
                    style: run.style,
                },
            ]
        } else {
            Seq::empty()
        })
    }
}

/// The commands of one row: clear it, then draw its styled runs when it has
/// any, else its plain text when that is not empty.
pub open spec fn row_commands(snapshot: TerminalSnapshot, row: u32) -> Seq<RenderCommandView> {
    seq![RenderCommandView::ClearLine { y: row }] + if has_run(snapshot.text_runs@, row) {
        styled_run_commands(snapshot.text_runs@, row)
    } else {
        match line_text_of(snapshot.lines@, row) {
            Some(text) => if text.len() > 0 {
                seq![RenderCommandView::TextRun { x: 0, y: row, text }]
            } else {
                Seq::empty()
            },
            None => Seq::empty(),
        }
    }
}

/// The commands of the given rows, one row after another.
pub open spec fn commands_for_rows(snapshot: TerminalSnapshot, rows: Seq<u32>) -> Seq<
    RenderCommandView,
>
    decreases rows.len(),
{
    if rows.len() == 0 {
        Seq::empty()
    } else {
        commands_for_rows(snapshot, rows.drop_last()) + row_commands(snapshot, rows.last())
    }
}

/// The rows a frame draws, in increasing order.
pub open spec fn rows_to_draw(snapshot: TerminalSnapshot) -> Seq<u32> {
    choose|rows: Seq<u32>|
        increasing(rows) && forall|r: u32| rows.contains(r) <==> row_is_drawn(snapshot, r)
}

/// The commands of a snapshot: those of the rows it draws, in row order.
pub open spec fn snapshot_commands(snapshot: TerminalSnapshot) -> Seq<RenderCommandView> {
    commands_for_rows(snapshot, rows_to_draw(snapshot))
}

/// Two increasing lists with the same elements are the same list.
pub proof fn lemma_increasing_unique(a: Seq<u32>, b: Seq<u32>)
    requires
        increasing(a),
        increasing(b),
        forall|r: u32| a.contains(r) <==> b.contains(r),
    ensures
        a == b,
    decreases a.len(),
{
    if a.len() == 0 {
        if b.len() > 0 {
            assert(b.contains(b[0]));
        }
        assert(a =~= b);
    } else if b.len() == 0 {
        assert(a.contains(a[0]));
    } else {
        let x = a.last();
        let y = b.last();
        assert(a.contains(x));
        assert(b.contains(y));
        let i = choose|i: int| 0 <= i < a.len() && a[i] == y;
        let j = choose|j: int| 0 <= j < b.len() && b[j] == x;
        if x != y {
            if i < a.len() - 1 {
                assert(a[i] < x);
            }
            if j < b.len() - 1 {
                assert(b[j] < y);
            }
        }
        assert(x == y);
        let a2 = a.drop_last();
        let b2 = b.drop_last();
        assert forall|r: u32| a2.contains(r) <==> b2.contains(r) by {
            if a2.contains(r) {
                let k = choose|k: int| 0 <= k < a2.len() && a2[k] == r;
                assert(a[k] < x);
                assert(b.contains(r));
                let m = choose|m: int| 0 <= m < b.len() && b[m] == r;
                assert(m != b.len() - 1);
                assert(b2[m] == r);
            }
            if b2.contains(r) {
                let k = choose|k: int| 0 <= k < b2.len() && b2[k] == r;
                assert(b[k] < y);
                assert(a.contains(r));
                let m = choose|m: int| 0 <= m < a.len() && a[m] == r;
                assert(m != a.len() - 1);
                assert(a2[m] == r);
            }
        }
        lemma_increasing_unique(a2, b2);
        assert(a =~= a2.push(x));
        assert(b =~= b2.push(y));
    }
}

/// Adds `row` to an increasing list of rows, where it belongs.
pub fn insert_row(rows: &mut Vec<u32>, row: u32)
    requires
        increasing(old(rows)@),
    ensures
        increasing(final(rows)@),
        forall|r: u32| final(rows)@.contains(r) <==> (old(rows)@.contains(r) || r == row),
{
    let mut i: usize = 0;
    while i < rows.len() && rows[i] < row
        invariant
            i <= rows@.len(),
            increasing(rows@),
            forall|j: int| 0 <= j < i ==> rows@[j] < row,
        decreases rows@.len() - i,
    {
        i = i + 1;
    }
    if i < rows.len() && rows[i] == row {
        assert(rows@[i as int] == row);
        return;
    }
    assert forall|j: int| i <= j < rows@.len() implies row < rows@[j] by {
        assert(rows@[i as int] <= rows@[j]);
    }
    let ghost before = rows@;
    rows.insert(i, row);
    proof {
        let after = rows@;
        assert forall|a: int, b: int| 0 <= a < b < after.len() implies #[trigger] after[a]
            < #[trigger] after[b] by {
            if b < i {
            } else if a < i && b == i {
            } else if a < i {
                assert(after[b] == before[b - 1]);
                if b - 1 > i {
                    assert(before[i as int] < before[b - 1]);
                }
            } else if a == i {
                assert(after[b] == before[b - 1]);
                if b - 1 > i {
                    assert(before[i as int] < before[b - 1]);
                }
            } else {
                assert(after[a] == before[a - 1] && after[b] == before[b - 1]);
            }
        }
        assert forall|r: u32| after.contains(r) <==> (before.contains(r) || r == row) by {
            if after.contains(r) {
                let k = choose|k: int| 0 <= k < after.len() && after[k] == r;
                if k < i {
                    assert(before[k] == r);
                } else if k > i {
                    assert(before[k - 1] == r);
                }
            }
            if before.contains(r) {
                let k = choose|k: int| 0 <= k < before.len() && before[k] == r;
                if k < i {
                    assert(after[k] == r);
                } else {
                    assert(after[k + 1] == r);
                }
            }
            if r == row {
                assert(after[i as int] == r);
            }
        }
    }
}

/// The rows a frame draws, in increasing order: the dirty rows when there
/// are any, else every row with a line or a styled run.
pub fn rows_to_render(snapshot: &TerminalSnapshot) -> (rows: Vec<u32>)
    ensures
        increasing(rows@),
        forall|r: u32| rows@.contains(r) <==> row_is_drawn(*snapshot, r),
        rows@ == rows_to_draw(*snapshot),
{
    let mut rows: Vec<u32> = Vec::new();
    if snapshot.dirty_rows.len() > 0 {
        let mut k: usize = 0;
        while k < snapshot.dirty_rows.len()
            invariant
                k <= snapshot.dirty_rows@.len(),
                increasing(rows@),
                forall|r: u32|
                    rows@.contains(r) <==> snapshot.dirty_rows@.subrange(0, k as int).contains(r),
            decreases snapshot.dirty_rows@.len() - k,
        {
            let row = snapshot.dirty_rows[k];
            insert_row(&mut rows, row);
            proof {
                let before = snapshot.dirty_rows@.subrange(0, k as int);
                let after = snapshot.dirty_rows@.subrange(0, k as int + 1);
                assert(after =~= before.push(row));
                assert forall|r: u32| after.contains(r) <==> (before.contains(r) || r == row) by {
                    if after.contains(r) {
                        let m = choose|m: int| 0 <= m < after.len() && after[m] == r;
                        if m < k {
                            assert(before[m] == r);
                        }
                    }
                    if before.contains(r) {
                        let m = choose|m: int| 0 <= m < before.len() && before[m] == r;
                        assert(after[m] == r);
                    }
                    if r == row {
                        assert(after[k as int] == r);
                    }
                }
            }
            k = k + 1;
        }
        proof {
            assert(snapshot.dirty_rows@.subrange(0, snapshot.dirty_rows@.len() as int)
                =~= snapshot.dirty_rows@);
        }
    } else {
        let mut k: usize = 0;
        while k < snapshot.lines.len()
            invariant
                k <= snapshot.lines@.len(),
                increasing(rows@),
                forall|r: u32|
                    rows@.contains(r) <==> exists|m: int|
                        0 <= m < k && #[trigger] snapshot.lines@[m].row == r,
            decreases snapshot.lines@.len() - k,
        {
            let row = snapshot.lines[k].row;
            insert_row(&mut rows, row);
            proof {
                assert forall|r: u32|
                    rows@.contains(r) <==> exists|m: int|
                        0 <= m < k + 1 && #[trigger] snapshot.lines@[m].row == r by {
                    if r == row {
                        assert(snapshot.lines@[k as int].row == r);
                    }
                }
            }
            k = k + 1;
        }
        let mut k: usize = 0;
        while k < snapshot.text_runs.len()
            invariant
                k <= snapshot.text_runs@.len(),
                increasing(rows@),
                forall|r: u32|
                    rows@.contains(r) <==> (has_line(snapshot.lines@, r) || exists|m: int|
                        0 <= m < k && #[trigger] snapshot.text_runs@[m].y == r),
            decreases snapshot.text_runs@.len() - k,
        {
            let row = snapshot.text_runs[k].y;
            insert_row(&mut rows, row);
            proof {
                assert forall|r: u32|
                    rows@.contains(r) <==> (has_line(snapshot.lines@, r) || exists|m: int|
                        0 <= m < k + 1 && #[trigger] snapshot.text_runs@[m].y == r) by {
                    if r == row {
                        assert(snapshot.text_runs@[k as int].y == r);
                    }
                }
            }
            k = k + 1;
        }
    }
    proof {
        let chosen = rows_to_draw(*snapshot);
        assert(exists|s: Seq<u32>|
            increasing(s) && forall|r: u32| s.contains(r) <==> row_is_drawn(*snapshot, r)) by {
            assert(increasing(rows@) && forall|r: u32| rows@.contains(r) <==> row_is_drawn(*snapshot, r));
        }
        lemma_increasing_unique(rows@, chosen);
    }
    rows
}

/// Appends the commands of one row.
fn push_row_commands(commands: &mut Vec<RenderCommandDto>, snapshot: &TerminalSnapshot, row: u32)
    ensures
        commands_view(final(commands)@) == commands_view(old(commands)@) + row_commands(*snapshot, row),
{
    let ghost start = commands_view(commands@);
    commands.push(RenderCommandDto::ClearLine { y: row });
    let ghost cleared = commands_view(commands@);
    assert(cleared =~= start + seq![RenderCommandView::ClearLine { y: row }]);
    let runs = &snapshot.text_runs;
    let mut has_runs = false;
    let mut k: usize = 0;
    while k < runs.len()
        invariant
            k <= runs@.len(),
            runs@ == snapshot.text_runs@,
            has_runs == exists|m: int| 0 <= m < k && #[trigger] runs@[m].y == row,
            commands_view(commands@) == cleared + styled_run_commands(runs@.subrange(0, k as int), row),
        decreases runs@.len() - k,
    {
        let ghost before = commands_view(commands@);
        let run = &runs[k];
        proof {
            assert(runs@.subrange(0, k as int + 1).drop_last() =~= runs@.subrange(0, k as int));
            assert(runs@.subrange(0, k as int + 1).last() == *run);
        }
        if run.y == row {
            has_runs = true;
            if !run.text.as_str().is_empty() {
                let c = RenderCommandDto::StyledTextRun {
                    x: run.x,
                    y: run.y,
                    text: run.text.clone(),
                    style: run.style,
                };
                commands.push(c);
                assert(commands_view(commands@) =~= before + seq![c@]);
            }
        }
        k = k + 1;
    }
    proof {
        assert(runs@.subrange(0, runs@.len() as int) =~= runs@);
    }
    if has_runs {
        return;
    }
    assert(styled_run_commands(runs@, row) =~= Seq::<RenderCommandView>::empty()) by {
        lemma_no_styled_runs(runs@, row);
    }
    let lines = &snapshot.lines;
    let mut m: usize = lines.len();
    assert(lines@.subrange(0, lines@.len() as int) =~= lines@);
    while m > 0 && lines[m - 1].row != row
        invariant
            m <= lines@.len(),
            lines@ == snapshot.lines@,
            line_text_of(lines@.subrange(0, m as int), row) == line_text_of(lines@, row),
        decreases m,
    {
        proof {
            assert(lines@.subrange(0, m as int).drop_last() =~= lines@.subrange(0, m as int - 1));
        }
        m = m - 1;
    }
    assert(!has_run(snapshot.text_runs@, row));
    if m > 0 {
        let line = &lines[m - 1];
        proof {
            assert(lines@.subrange(0, m as int).last() == *line);
            assert(line_text_of(lines@, row) == Some(line.text@));
        }
        assert(commands_view(commands@) =~= cleared);
        if !line.text.as_str().is_empty() {
            let c = RenderCommandDto::TextRun { x: 0, y: row, text: line.text.clone() };
            let ghost before = commands@;
            commands.push(c);
            assert(commands@ == before.push(c));
            assert(commands_view(commands@) =~= cleared.push(c@));
            assert(c@ == RenderCommandView::TextRun { x: 0, y: row, text: line.text@ });
            assert(commands_view(commands@) =~= start + row_commands(*snapshot, row));
        } else {
            assert(commands_view(commands@) =~= start + row_commands(*snapshot, row));
        }
    } else {
        assert(lines@.subrange(0, 0) =~= Seq::<TerminalLineSnapshot>::empty());
        assert(commands_view(commands@) =~= start + row_commands(*snapshot, row));
    }
}

/// A row without runs has no styled run commands.
proof fn lemma_no_styled_runs(runs: Seq<TerminalTextRunSnapshot>, row: u32)
    requires
        !has_run(runs, row),
    ensures
        styled_run_commands(runs, row) == Seq::<RenderCommandView>::empty(),
    decreases runs.len(),
{
    if runs.len() > 0 {
        assert(!has_run(runs.drop_last(), row)) by {
            if has_run(runs.drop_last(), row) {
                let k = choose|k: int| 0 <= k < runs.drop_last().len() && #[trigger] runs.drop_last()[k].y == row;
                assert(runs[k].y == row);
            }
        }
        lemma_no_styled_runs(runs.drop_last(), row);
        assert(runs[runs.len() - 1].y != row);
        assert(styled_run_commands(runs, row) =~= Seq::<RenderCommandView>::empty());
    }
}

/// The commands that draw a snapshot: for each row it draws, in increasing
/// order, a clear of the row followed by its styled runs, or by its plain
/// text when it has no styled run.
pub fn snapshot_frame_commands(snapshot: &TerminalSnapshot) -> (commands: Vec<RenderCommandDto>)
    ensures
        commands_view(commands@) == snapshot_commands(*snapshot),
{
    let rows = rows_to_render(snapshot);
    let mut commands: Vec<RenderCommandDto> = Vec::new();
    let mut k: usize = 0;
    while k < rows.len()
        invariant
            k <= rows@.len(),
            rows@ == rows_to_draw(*snapshot),
            commands_view(commands@) == commands_for_rows(*snapshot, rows@.subrange(0, k as int)),
        decreases rows@.len() - k,
    {
        push_row_commands(&mut commands, snapshot, rows[k]);
        proof {
            assert(rows@.subrange(0, k as int + 1).drop_last() =~= rows@.subrange(0, k as int));
        }
        k = k + 1;
    }
    assert(rows@.subrange(0, rows@.len() as int) =~= rows@);
    commands
}

/// The line drawn for a render target that has no snapshot:
/// `target=<id> seq=<seq> terminal_snapshot=<missing>`, both numbers in
/// decimal.
pub open spec fn missing_snapshot_text(target_id: u64, seq: u64) -> Seq<char> {
    "target="@ + decimal_text(target_id as nat) + " seq="@ + decimal_text(seq as nat) + " terminal_snapshot=<missing>"@
}

/// Writes the line drawn for a render target that has no snapshot.
fn missing_snapshot_line(target_id: u64, seq: u64) -> (text: String)
    ensures
        text@ == missing_snapshot_text(target_id, seq),
{
    let mut text = String::new();
    text.append("target=");
    push_decimal(&mut text, target_id);
    text.append(" seq=");
    push_decimal(&mut text, seq);
    text.append(" terminal_snapshot=<missing>");
    assert(text@ =~= missing_snapshot_text(target_id, seq));
    text
}

/// The commands of a frame: those of the snapshot when there is one; else a
/// clear of the surface and one line that says the snapshot is missing.
pub open spec fn frame_plan_commands(task: BuildFramePlanTask, snapshot: Option<TerminalSnapshot>) -> Seq<
    RenderCommandView,
> {
    match snapshot {
        Some(s) => snapshot_commands(s),
        None => seq![
            RenderCommandView::Clear,
            RenderCommandView::TextRun {
                x: 0,
                y: 0,
                text: missing_snapshot_text(task.target_id.0, task.seq.0),
            },
        ],
    }
}

/// The frame plan of a task from the snapshot that was found for it.
pub fn frame_plan_from_snapshot(task: BuildFramePlanTask, snapshot: Option<TerminalSnapshot>) -> (plan:
    BuiltFramePlan)
    ensures
        plan.target_id == task.target_id,
        plan.seq == task.seq,
        commands_view(plan.commands@) == frame_plan_commands(task, snapshot),
{
    let commands = match snapshot {
        Some(s) => snapshot_frame_commands(&s),
        None => {
            let mut commands: Vec<RenderCommandDto> = Vec::new();
            commands.push(RenderCommandDto::Clear);
            let text = missing_snapshot_line(task.target_id.value(), task.seq.value());
            commands.push(RenderCommandDto::TextRun { x: 0, y: 0, text });
            assert(commands_view(commands@) =~= frame_plan_commands(task, snapshot));
            commands
        },
    };
    BuiltFramePlan { target_id: task.target_id, seq: task.seq, commands }
}

/// Builds frame plans from the snapshots a provider hands out.
#[derive(Debug, Clone)]
pub struct SnapshotFramePlanBuilder<P> {
    snapshot_provider: P,
}

impl<P: TerminalSnapshotProvider> SnapshotFramePlanBuilder<P> {
    /// The provider the builder asks for snapshots.
    pub closed spec fn provider(&self) -> P {
        self.snapshot_provider
    }

    pub fn new(snapshot_provider: P) -> (builder: Self)
        ensures
            builder.provider() == snapshot_provider,
    {
        SnapshotFramePlanBuilder { snapshot_provider }
    }

    /// The frame plan of a task: built from the snapshot that the provider
    /// hands out for the task's target at the task's sequence number.
    pub fn build(&self, task: BuildFramePlanTask) -> (plan: BuiltFramePlan)
        ensures
            plan.target_id == task.target_id,
            plan.seq == task.seq,
            exists|snapshot: Option<TerminalSnapshot>|
                call_ensures(P::snapshot_for_build, (&self.provider(), task.target_id, task.seq), snapshot)
                    && commands_view(plan.commands@) == frame_plan_commands(task, snapshot),
    {
        let snapshot = self.snapshot_provider.snapshot_for_build(task.target_id, task.seq);
        let ghost found = snapshot;
        let plan = frame_plan_from_snapshot(task, snapshot);
        assert(commands_view(plan.commands@) == frame_plan_commands(task, found));
        plan
    }
}

} // verus!
