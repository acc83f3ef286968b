use vstd::prelude::*;
use crate::colors::{RgbColorDto, TextStyleDto};
use crate::quad_plan::RgbaColorDto;
use crate::ids::{RenderTargetId, SeqNo};
use crate::render_surface::{
    RenderSurfaceRowSnapshot, RenderSurfaceRunSnapshot, RenderSurfaceSnapshot, RowView, RunView, SurfaceView,
    runs_view,
};
use crate::snapshot_frame_plan::{BuiltFramePlan, RenderCommandDto, RenderCommandView, commands_view};
use crate::renderer_backend::PixelFillRect;
use crate::retained_frame::sat_add_u32;
use crate::tab_bar::{terminal_text_cell_width, text_width};
use crate::text_shaping::{char_cell_width, terminal_char_cell_width};

verus! {

// ---------------------------------------------------------------------------
// Runs of text on a row, and the text they compose.
// ---------------------------------------------------------------------------

/// A run of styled text that starts at cell `x` of its row.
#[derive(Debug, Clone, PartialEq, Eq)]
pub struct TextSurfaceRun {
    pub x: u32,
    pub text: String,
    pub style: TextStyleDto,
}

impl View for TextSurfaceRun {
    type V = RunView;

    open spec fn view(&self) -> RunView {
        RunView { x: self.x, text: self.text@, style: self.style }
    }
}

pub open spec fn text_runs_view(runs: Seq<TextSurfaceRun>) -> Seq<RunView> {
    runs.map_values(|run: TextSurfaceRun| run@)
}

/// `n` blanks.
pub open spec fn blanks(n: nat) -> Seq<char> {
    Seq::new(n, |i: int| ' ')
}

/// `chars` followed by enough blanks to reach `x` cells.
pub open spec fn padded_to(chars: Seq<char>, x: u32) -> Seq<char> {
    if text_width(chars) < x {
        chars + blanks((x - text_width(chars)) as nat)
    } else {
        chars
    }
}

/// Where the character at cell `x` starts: walking from `i`, with `cell`
/// cells before it, while there are characters and fewer than `x` cells
/// behind.
pub open spec fn index_at_cell(chars: Seq<char>, x: int, i: int, cell: int) -> int
    decreases chars.len() - i,
{
    if 0 <= i < chars.len() && cell < x {
        index_at_cell(chars, x, i + 1, cell + char_cell_width(chars[i]))
    } else {
        i
    }
}

/// How many characters from `start` cover `width` cells: counting from the
/// `r`-th with `covered` cells so far, while there are characters and fewer
/// than `width` cells covered.
pub open spec fn covering_count(chars: Seq<char>, start: int, width: int, r: int, covered: int) -> int
    decreases chars.len() - (start + r),
{
    if 0 <= start + r < chars.len() && covered < width {
        covering_count(chars, start, width, r + 1, covered + char_cell_width(chars[start + r]))
    } else {
        r
    }
}

/// `target` with `text` written over it from cell `x`: the target is padded
/// to `x` cells, and the characters from the one at cell `x` that cover as
/// many cells as `text` takes give way to it.
pub open spec fn replaced_at(target: Seq<char>, x: u32, text: Seq<char>) -> Seq<char> {
    let chars = padded_to(target, x);
    let index = index_at_cell(chars, x as int, 0, 0);
    let count = covering_count(chars, index, text_width(text) as int, 0, 0);
    chars.subrange(0, index) + text + chars.subrange(index + count, chars.len() as int)
}

/// The text of a row: each run in turn, padded to and written over from its
/// cell.
pub open spec fn composed_text(runs: Seq<RunView>) -> Seq<char>
    decreases runs.len(),
{
    if runs.len() == 0 {
        Seq::empty()
    } else {
        let run = runs.last();
        replaced_at(padded_to(composed_text(runs.drop_last()), run.x), run.x, run.text)
    }
}

fn copy_run(run: &TextSurfaceRun) -> (copy: TextSurfaceRun)
    ensures
        copy@ == run@,
{
    TextSurfaceRun { x: run.x, text: run.text.clone(), style: run.style }
}

fn chars_of(text: &str) -> (chars: Vec<char>)
    ensures
        chars@ == text@,
{
    let n = text.unicode_len();
    let mut chars: Vec<char> = Vec::new();
    let mut i: usize = 0;
    while i < n
        invariant
            n == text@.len(),
            i <= n,
            chars@ == text@.take(i as int),
        decreases n - i,
    {
        chars.push(text.get_char(i));
        assert(chars@ =~= text@.take(i as int + 1));
        i = i + 1;
    }
    assert(text@.take(n as int) =~= text@);
    chars
}

fn string_of(chars: &Vec<char>) -> (text: String)
    ensures
        text@ == chars@,
{
    let mut text = String::new();
    let mut i: usize = 0;
    while i < chars.len()
        invariant
            i <= chars@.len(),
            text@ == chars@.take(i as int),
        decreases chars@.len() - i,
    {
        text.push(chars[i]);
        assert(text@ =~= chars@.take(i as int + 1));
        i = i + 1;
    }
    assert(chars@.take(chars@.len() as int) =~= chars@);
    text
}

fn chars_cell_width(chars: &Vec<char>) -> (width: u32)
    ensures
        width == text_width(chars@),
{
    let mut width: u32 = 0;
    let mut i: usize = 0;
    while i < chars.len()
        invariant
            i <= chars@.len(),
            width == text_width(chars@.take(i as int)),
        decreases chars@.len() - i,
    {
        proof {
            assert(chars@.take(i as int + 1).drop_last() =~= chars@.take(i as int));
        }
        width = width.saturating_add(terminal_char_cell_width(chars[i]));
        i = i + 1;
    }
    assert(chars@.take(chars@.len() as int) =~= chars@);
    width
}

/// Appends blanks until the characters take at least `x` cells.
fn pad_to_cell(chars: &mut Vec<char>, x: u32)
    ensures
        final(chars)@ == padded_to(old(chars)@, x),
{
    let blank_width = terminal_char_cell_width(' ');
    assert(char_cell_width(' ') == 1);
    let ghost start = chars@;
    let mut width = chars_cell_width(chars);
    let ghost w0 = width as int;
    while width < x
        invariant
            char_cell_width(' ') == 1,
            blank_width == 1,
            w0 == text_width(start),
            w0 <= width,
            width <= x || width == w0,
            chars@ == start + blanks((width - w0) as nat),
            width == text_width(chars@),
        decreases x - width,
    {
        let ghost before = chars@;
        chars.push(' ');
        proof {
            assert(chars@.drop_last() =~= before);
            assert(chars@ =~= start + blanks((width + 1 - w0) as nat));
        }
        width = width + blank_width;
    }
    proof {
        if w0 < x {
            assert(width == x);
        } else {
            assert(chars@ =~= start);
        }
    }
}

/// Writes `text` over `target` from cell `x` (see `replaced_at`).
fn replace_text_at(target: &mut Vec<char>, x: u32, text: &str)
    ensures
        final(target)@ == replaced_at(old(target)@, x, text@),
{
    let ghost start = target@;
    pad_to_cell(target, x);
    let ghost chars = target@;
    let mut index: usize = 0;
    let mut cell_x: u64 = 0;
    while index < target.len() && cell_x < x as u64
        invariant
            target@ == chars,
            index <= chars.len(),
            cell_x <= x as int + 2,
            index_at_cell(chars, x as int, index as int, cell_x as int) == index_at_cell(chars, x as int, 0, 0),
        decreases chars.len() - index,
    {
        let advance = terminal_char_cell_width(target[index]);
        assert(advance <= 2);
        cell_x = cell_x + advance as u64;
        index = index + 1;
    }
    let text_cells = terminal_text_cell_width(text);
    let mut count: usize = 0;
    let mut covered: u64 = 0;
    while count < target.len() - index && covered < text_cells as u64
        invariant
            target@ == chars,
            index == index_at_cell(chars, x as int, 0, 0),
            index + count <= chars.len(),
            covered <= text_cells as int + 2,
            covering_count(chars, index as int, text_cells as int, count as int, covered as int)
                == covering_count(chars, index as int, text_cells as int, 0, 0),
        decreases chars.len() - (index + count),
    {
        let advance = terminal_char_cell_width(target[index + count]);
        covered = covered + advance as u64;
        count = count + 1;
    }
    let text_chars = chars_of(text);
    let mut out: Vec<char> = Vec::new();
    let mut k: usize = 0;
    while k < index
        invariant
            target@ == chars,
            index <= chars.len(),
            k <= index,
            out@ == chars.subrange(0, k as int),
        decreases index - k,
    {
        out.push(target[k]);
        assert(out@ =~= chars.subrange(0, k as int + 1));
        k = k + 1;
    }
    let ghost head = out@;
    let mut t: usize = 0;
    while t < text_chars.len()
        invariant
            t <= text_chars@.len(),
            out@ == head + text_chars@.take(t as int),
        decreases text_chars@.len() - t,
    {
        out.push(text_chars[t]);
        assert(out@ =~= head + text_chars@.take(t as int + 1));
        t = t + 1;
    }
    assert(text_chars@.take(text_chars@.len() as int) =~= text@);
    let ghost middle = out@;
    let mut j: usize = index + count;
    while j < target.len()
        invariant
            target@ == chars,
            index + count <= j <= chars.len(),
            out@ == middle + chars.subrange(index + count, j as int),
        decreases chars.len() - j,
    {
        out.push(target[j]);
        assert(out@ =~= middle + chars.subrange(index + count, j as int + 1));
        j = j + 1;
    }
    *target = out;
}

// ---------------------------------------------------------------------------
// A row of runs.
// ---------------------------------------------------------------------------

/// The cell after the last one a run takes, at most `u32::MAX`.
pub open spec fn run_end(run: RunView) -> int {
    sat_add_u32(run.x as int, text_width(run.text) as int)
}

/// Whether a run overlaps the cells from `start` up to `end`.
pub open spec fn overlaps(run: RunView, start: int, end: int) -> bool {
    !(run_end(run) <= start || run.x >= end)
}

/// The runs that keep clear of the cells from `start` up to `end`, in order.
pub open spec fn runs_outside(runs: Seq<RunView>, start: int, end: int) -> Seq<RunView>
    decreases runs.len(),
{
    if runs.len() == 0 {
        Seq::empty()
    } else {
        let kept = runs_outside(runs.drop_last(), start, end);
        if overlaps(runs.last(), start, end) {
            kept
        } else {
            kept.push(runs.last())
        }
    }
}

/// Where a run starting at cell `x` goes: after the last run, from the end,
/// that starts at or before it.
pub open spec fn insert_position(runs: Seq<RunView>, x: u32) -> int
    decreases runs.len(),
{
    if runs.len() == 0 {
        0
    } else if runs.last().x <= x {
        runs.len() as int
    } else {
        insert_position(runs.drop_last(), x)
    }
}

/// `runs` with `run` put in its place by starting cell, after the runs that
/// start at the same cell.
pub open spec fn insert_run(runs: Seq<RunView>, run: RunView) -> Seq<RunView> {
    runs.insert(insert_position(runs, run.x), run)
}

/// The runs sorted by starting cell, runs that start at the same cell in
/// their original order.
pub open spec fn sorted_by_cell(runs: Seq<RunView>) -> Seq<RunView>
    decreases runs.len(),
{
    if runs.len() == 0 {
        Seq::empty()
    } else {
        insert_run(sorted_by_cell(runs.drop_last()), runs.last())
    }
}

/// Runs in order of their starting cells.
pub open spec fn runs_sorted(runs: Seq<RunView>) -> bool {
    forall|i: int, j: int| 0 <= i < j < runs.len() ==> (#[trigger] runs[i]).x <= (#[trigger] runs[j]).x
}

pub proof fn lemma_runs_outside(runs: Seq<RunView>, start: int, end: int)
    ensures
        runs_sorted(runs) ==> runs_sorted(runs_outside(runs, start, end)),
        forall|i: int|
            0 <= i < runs_outside(runs, start, end).len() ==> runs.contains(
                #[trigger] runs_outside(runs, start, end)[i],
            ),
    decreases runs.len(),
{
    if runs.len() > 0 {
        let prior = runs.drop_last();
        lemma_runs_outside(prior, start, end);
        let kept = runs_outside(prior, start, end);
        assert forall|i: int| 0 <= i < kept.len() implies runs.contains(#[trigger] kept[i]) by {
            let k = choose|k: int| 0 <= k < prior.len() && prior[k] == kept[i];
            assert(runs[k] == prior[k]);
        }
        assert(runs[runs.len() - 1] == runs.last());
        if runs_sorted(runs) {
            assert(runs_sorted(prior)) by {
                assert forall|i: int, j: int| 0 <= i < j < prior.len() implies (#[trigger] prior[i]).x <= (
                #[trigger] prior[j]).x by {
                    assert(runs[i] == prior[i] && runs[j] == prior[j]);
                }
            }
            assert forall|i: int| 0 <= i < kept.len() implies (#[trigger] kept[i]).x <= runs.last().x by {
                let k = choose|k: int| 0 <= k < runs.len() && runs[k] == kept[i];
                if k < runs.len() - 1 {
                    assert(runs[k].x <= runs[runs.len() - 1].x);
                }
            }
        }
    }
}

proof fn lemma_runs_outside_clear(runs: Seq<RunView>, start: int, end: int)
    ensures
        forall|i: int|
            0 <= i < runs_outside(runs, start, end).len() ==> !overlaps(
                #[trigger] runs_outside(runs, start, end)[i],
                start,
                end,
            ),
    decreases runs.len(),
{
    if runs.len() > 0 {
        lemma_runs_outside_clear(runs.drop_last(), start, end);
        let kept = runs_outside(runs.drop_last(), start, end);
        let out = runs_outside(runs, start, end);
        assert forall|i: int| 0 <= i < out.len() implies !overlaps(#[trigger] out[i], start, end) by {
            if i < kept.len() {
                assert(out[i] == kept[i]);
            }
        }
    }
}

/// After a run is put on a row, no other run of the row overlaps its cells:
/// every run it overlapped is gone, and the run itself is on the row.
pub proof fn lemma_applied_run_stands_alone(runs: Seq<RunView>, run: RunView)
    requires
        runs_sorted(runs),
    ensures
        ({
            let kept = runs_outside(runs, run.x as int, run_end(run));
            let after = insert_run(kept, run);
            let at = insert_position(kept, run.x);
            &&& 0 <= at < after.len()
            &&& after[at] == run
            &&& forall|i: int| 0 <= i < after.len() && i != at ==> !overlaps(#[trigger] after[i], run.x as int, run_end(run))
        }),
{
    let kept = runs_outside(runs, run.x as int, run_end(run));
    lemma_runs_outside(runs, run.x as int, run_end(run));
    lemma_runs_outside_clear(runs, run.x as int, run_end(run));
    lemma_insert_position(kept, run.x);
    let after = insert_run(kept, run);
    let at = insert_position(kept, run.x);
    assert forall|i: int| 0 <= i < after.len() && i != at implies !overlaps(#[trigger] after[i], run.x as int, run_end(run)) by {
        if i < at {
            assert(after[i] == kept[i]);
        } else {
            assert(after[i] == kept[i - 1]);
        }
    }
}

pub proof fn lemma_insert_position(runs: Seq<RunView>, x: u32)
    requires
        runs_sorted(runs),
    ensures
        0 <= insert_position(runs, x) <= runs.len(),
        forall|i: int| 0 <= i < insert_position(runs, x) ==> (#[trigger] runs[i]).x <= x,
        forall|i: int| insert_position(runs, x) <= i < runs.len() ==> (#[trigger] runs[i]).x > x,
    decreases runs.len(),
{
    if runs.len() > 0 {
        let prior = runs.drop_last();
        assert(runs_sorted(prior)) by {
            assert forall|i: int, j: int| 0 <= i < j < prior.len() implies (#[trigger] prior[i]).x <= (
            #[trigger] prior[j]).x by {
                assert(runs[i] == prior[i] && runs[j] == prior[j]);
            }
        }
        lemma_insert_position(prior, x);
        let last = runs.len() - 1;
        if runs.last().x <= x {
            assert forall|i: int| 0 <= i < runs.len() implies (#[trigger] runs[i]).x <= x by {
                if i < last {
                    assert(runs[i].x <= runs[last].x);
                }
            }
        } else {
            assert forall|i: int| 0 <= i < insert_position(runs, x) implies (#[trigger] runs[i]).x <= x by {
                assert(runs[i] == prior[i]);
            }
            assert forall|i: int| insert_position(runs, x) <= i < runs.len() implies (#[trigger] runs[i]).x > x by {
                if i < last {
                    assert(runs[i] == prior[i]);
                }
            }
        }
    }
}

pub proof fn lemma_insert_run(runs: Seq<RunView>, run: RunView)
    requires
        runs_sorted(runs),
    ensures
        runs_sorted(insert_run(runs, run)),
        insert_run(runs, run).len() == runs.len() + 1,
{
    lemma_insert_position(runs, run.x);
    let p = insert_position(runs, run.x);
    let out = insert_run(runs, run);
    assert forall|i: int, j: int| 0 <= i < j < out.len() implies (#[trigger] out[i]).x <= (#[trigger] out[j]).x by {
        if i < p && j < p {
            assert(out[i] == runs[i] && out[j] == runs[j]);
        } else if i < p && j == p {
            assert(out[i] == runs[i]);
        } else if i < p {
            assert(out[i] == runs[i] && out[j] == runs[j - 1]);
        } else if i == p {
            assert(out[j] == runs[j - 1]);
        } else {
            assert(out[i] == runs[i - 1] && out[j] == runs[j - 1]);
        }
    }
}

/// Sorting runs already in order leaves them as they are.
pub proof fn lemma_sorted_by_cell_of_sorted(runs: Seq<RunView>)
    requires
        runs_sorted(runs),
    ensures
        sorted_by_cell(runs) == runs,
    decreases runs.len(),
{
    if runs.len() > 0 {
        let prior = runs.drop_last();
        assert(runs_sorted(prior)) by {
            assert forall|i: int, j: int| 0 <= i < j < prior.len() implies (#[trigger] prior[i]).x <= (
            #[trigger] prior[j]).x by {
                assert(runs[i] == prior[i] && runs[j] == prior[j]);
            }
        }
        lemma_sorted_by_cell_of_sorted(prior);
        if prior.len() > 0 {
            assert(prior.last().x <= runs.last().x) by {
                assert(runs[prior.len() - 1] == prior.last());
            }
        }
        assert(insert_position(prior, runs.last().x) == prior.len());
        assert(prior.insert(prior.len() as int, runs.last()) =~= runs);
    }
}

/// The runs of one row, in order of their starting cells.
#[derive(Debug, Clone, PartialEq, Eq)]
pub struct TextSurfaceRow {
    runs: Vec<TextSurfaceRun>,
}

impl View for TextSurfaceRow {
    type V = Seq<RunView>;

    closed spec fn view(&self) -> Seq<RunView> {
        text_runs_view(self.runs@)
    }
}

/// A row's runs are in order of their starting cells.
pub open spec fn row_wf(runs: Seq<RunView>) -> bool {
    runs_sorted(runs)
}

impl TextSurfaceRow {
    pub fn new() -> (row: Self)
        ensures
            row@ == Seq::<RunView>::empty(),
    {
        let row = TextSurfaceRow { runs: Vec::new() };
        assert(row@ =~= Seq::<RunView>::empty());
        row
    }

    /// The runs of the row, in order of their starting cells.
    pub fn runs(&self) -> (runs: &[TextSurfaceRun])
        ensures
            text_runs_view(runs@) == self@,
    {
        self.runs.as_slice()
    }

    /// The text of the row (see `composed_text`).
    pub fn text(&self) -> (text: String)
        ensures
            text@ == composed_text(self@),
    {
        let ghost runs = self@;
        let mut chars: Vec<char> = Vec::new();
        let mut i: usize = 0;
        while i < self.runs.len()
            invariant
                runs == text_runs_view(self.runs@),
                i <= self.runs@.len(),
                chars@ == composed_text(runs.take(i as int)),
            decreases self.runs@.len() - i,
        {
            let run = &self.runs[i];
            pad_to_cell(&mut chars, run.x);
            replace_text_at(&mut chars, run.x, run.text.as_str());
            proof {
                let taken = runs.take(i as int + 1);
                assert(taken.drop_last() =~= runs.take(i as int));
                assert(taken.last() == run@);
            }
            i = i + 1;
        }
        assert(runs.take(self.runs@.len() as int) =~= runs);
        string_of(&chars)
    }

    /// Puts a run on the row: the runs it overlaps go, and it takes its place
    /// by starting cell.
    pub fn apply_run(&mut self, run: TextSurfaceRun)
        requires
            row_wf(old(self)@),
        ensures
            row_wf(final(self)@),
            final(self)@ == insert_run(runs_outside(old(self)@, run.x as int, run_end(run@)), run@),
    {
        let ghost old_runs = self@;
        let run_start = run.x;
        let run_stop = run.x.saturating_add(terminal_text_cell_width(run.text.as_str()));
        let mut kept: Vec<TextSurfaceRun> = Vec::new();
        let mut i: usize = 0;
        while i < self.runs.len()
            invariant
                old_runs == text_runs_view(self.runs@),
                i <= self.runs@.len(),
                run_start == run.x,
                run_stop == run_end(run@),
                text_runs_view(kept@) == runs_outside(old_runs.take(i as int), run_start as int, run_stop as int),
            decreases self.runs@.len() - i,
        {
            let existing = &self.runs[i];
            assert(old_runs[i as int] == existing@);
            let existing_start = existing.x;
            let existing_end = existing.x.saturating_add(terminal_text_cell_width(existing.text.as_str()));
            proof {
                let taken = old_runs.take(i as int + 1);
                assert(taken.drop_last() =~= old_runs.take(i as int));
                assert(taken.last() == existing@);
            }
            if existing_end <= run_start || existing_start >= run_stop {
                let ghost before = kept@;
                kept.push(copy_run(existing));
                proof {
                    assert(text_runs_view(kept@) =~= text_runs_view(before).push(existing@));
                }
            }
            i = i + 1;
        }
        assert(old_runs.take(self.runs@.len() as int) =~= old_runs);
        let ghost outside = text_runs_view(kept@);
        proof {
            lemma_runs_outside(old_runs, run.x as int, run_end(run@));
        }
        let mut p: usize = kept.len();
        assert(outside.take(p as int) =~= outside);
        while p > 0 && kept[p - 1].x > run.x
            invariant
                p <= kept@.len(),
                outside == text_runs_view(kept@),
                insert_position(outside.take(p as int), run.x) == insert_position(outside, run.x),
            decreases p,
        {
            proof {
                assert(outside.take(p as int).drop_last() =~= outside.take(p as int - 1));
                assert(outside[p as int - 1] == kept@[p as int - 1]@);
            }
            p = p - 1;
        }
        proof {
            if p > 0 {
                assert(outside[p as int - 1] == kept@[p as int - 1]@);
                assert(outside.take(p as int).last() == outside[p as int - 1]);
            }
        }
        let ghost run_view = run@;
        kept.insert(p, run);
        proof {
            assert(text_runs_view(kept@) =~= insert_run(outside, run_view));
            lemma_insert_run(outside, run_view);
        }
        self.runs = kept;
    }
}

// ---------------------------------------------------------------------------
// Rows by row number, and sets of row numbers, kept in increasing order.
// ---------------------------------------------------------------------------

/// Entries in strictly increasing order of their keys.
pub open spec fn keys_increasing<V>(entries: Seq<(u32, V)>) -> bool {
    forall|i: int, j: int| 0 <= i < j < entries.len() ==> (#[trigger] entries[i]).0 < (#[trigger] entries[j]).0
}

/// How many entries have a key below `key`, for entries in order: where an
/// entry for `key` is, or would go.
pub open spec fn key_position<V>(entries: Seq<(u32, V)>, key: u32) -> int
    decreases entries.len(),
{
    if entries.len() == 0 {
        0
    } else if entries.last().0 < key {
        entries.len() as int
    } else {
        key_position(entries.drop_last(), key)
    }
}

/// The value for `key`, if there is an entry for it.
pub open spec fn entry_at<V>(entries: Seq<(u32, V)>, key: u32) -> Option<V> {
    let p = key_position(entries, key);
    if p < entries.len() && entries[p].0 == key {
        Some(entries[p].1)
    } else {
        None
    }
}

/// The entries with `key` set to `value`, replaced or put in its place.
pub open spec fn with_entry<V>(entries: Seq<(u32, V)>, key: u32, value: V) -> Seq<(u32, V)> {
    let p = key_position(entries, key);
    if p < entries.len() && entries[p].0 == key {
        entries.update(p, (key, value))
    } else {
        entries.insert(p, (key, value))
    }
}

/// The entries without one for `key`.
pub open spec fn without_entry<V>(entries: Seq<(u32, V)>, key: u32) -> Seq<(u32, V)> {
    let p = key_position(entries, key);
    if p < entries.len() && entries[p].0 == key {
        entries.remove(p)
    } else {
        entries
    }
}

pub proof fn lemma_key_position<V>(entries: Seq<(u32, V)>, key: u32)
    requires
        keys_increasing(entries),
    ensures
        0 <= key_position(entries, key) <= entries.len(),
        forall|i: int| 0 <= i < key_position(entries, key) ==> (#[trigger] entries[i]).0 < key,
        forall|i: int| key_position(entries, key) <= i < entries.len() ==> (#[trigger] entries[i]).0 >= key,
    decreases entries.len(),
{
    if entries.len() > 0 {
        let prior = entries.drop_last();
        assert(keys_increasing(prior)) by {
            assert forall|i: int, j: int| 0 <= i < j < prior.len() implies (#[trigger] prior[i]).0 < (
            #[trigger] prior[j]).0 by {
                assert(entries[i] == prior[i] && entries[j] == prior[j]);
            }
        }
        lemma_key_position(prior, key);
        let last = entries.len() - 1;
        if entries.last().0 < key {
            assert forall|i: int| 0 <= i < entries.len() implies (#[trigger] entries[i]).0 < key by {
                if i < last {
                    assert(entries[i].0 < entries[last].0);
                }
            }
        } else {
            assert forall|i: int| 0 <= i < key_position(entries, key) implies (#[trigger] entries[i]).0 < key by {
                assert(entries[i] == prior[i]);
            }
            assert forall|i: int| key_position(entries, key) <= i < entries.len() implies (#[trigger] entries[i]).0
                >= key by {
                if i < last {
                    assert(entries[i] == prior[i]);
                }
            }
        }
    }
}

pub proof fn lemma_with_entry<V>(entries: Seq<(u32, V)>, key: u32, value: V)
    requires
        keys_increasing(entries),
    ensures
        keys_increasing(with_entry(entries, key, value)),
        keys_increasing(without_entry(entries, key)),
{
    lemma_key_position(entries, key);
    let p = key_position(entries, key);
    let present = p < entries.len() && entries[p].0 == key;
    let set = with_entry(entries, key, value);
    assert forall|i: int, j: int| 0 <= i < j < set.len() implies (#[trigger] set[i]).0 < (#[trigger] set[j]).0 by {
        if present {
            if i != p && j != p {
                assert(set[i] == entries[i] && set[j] == entries[j]);
            } else if i == p {
                assert(set[j] == entries[j]);
                assert(entries[p].0 < entries[j].0);
            } else {
                assert(set[i] == entries[i]);
                assert(entries[i].0 < entries[p].0);
            }
        } else {
            if j < p {
                assert(set[i] == entries[i] && set[j] == entries[j]);
            } else if i < p && j == p {
                assert(set[i] == entries[i]);
            } else if i < p {
                assert(set[i] == entries[i] && set[j] == entries[j - 1]);
            } else if i == p {
                assert(set[j] == entries[j - 1]);
                if j - 1 > p {
                    assert(entries[p].0 < entries[j - 1].0);
                }
            } else {
                assert(set[i] == entries[i - 1] && set[j] == entries[j - 1]);
            }
        }
    }
    let removed = without_entry(entries, key);
    assert forall|i: int, j: int| 0 <= i < j < removed.len() implies (#[trigger] removed[i]).0 < (
    #[trigger] removed[j]).0 by {
        if present {
            let oi = if i < p {
                i
            } else {
                i + 1
            };
            let oj = if j < p {
                j
            } else {
                j + 1
            };
            assert(removed[i] == entries[oi] && removed[j] == entries[oj]);
        } else {
            assert(removed[i] == entries[i] && removed[j] == entries[j]);
        }
    }
}

/// Numbers in strictly increasing order.
pub open spec fn numbers_increasing(numbers: Seq<u32>) -> bool {
    forall|i: int, j: int| 0 <= i < j < numbers.len() ==> #[trigger] numbers[i] < #[trigger] numbers[j]
}

/// How many numbers are below `n`, for numbers in order.
pub open spec fn number_position(numbers: Seq<u32>, n: u32) -> int
    decreases numbers.len(),
{
    if numbers.len() == 0 {
        0
    } else if numbers.last() < n {
        numbers.len() as int
    } else {
        number_position(numbers.drop_last(), n)
    }
}

/// The numbers with `n` among them, in order.
pub open spec fn with_number(numbers: Seq<u32>, n: u32) -> Seq<u32> {
    let p = number_position(numbers, n);
    if p < numbers.len() && numbers[p] == n {
        numbers
    } else {
        numbers.insert(p, n)
    }
}

pub proof fn lemma_with_number(numbers: Seq<u32>, n: u32)
    requires
        numbers_increasing(numbers),
    ensures
        numbers_increasing(with_number(numbers, n)),
        with_number(numbers, n).to_set() == numbers.to_set().insert(n),
        0 <= number_position(numbers, n) <= numbers.len(),
        forall|i: int| 0 <= i < number_position(numbers, n) ==> #[trigger] numbers[i] < n,
        forall|i: int| number_position(numbers, n) <= i < numbers.len() ==> #[trigger] numbers[i] >= n,
    decreases numbers.len(),
{
    if numbers.len() > 0 {
        let prior = numbers.drop_last();
        assert(numbers_increasing(prior)) by {
            assert forall|i: int, j: int| 0 <= i < j < prior.len() implies #[trigger] prior[i] < #[trigger] prior[j] by {
                assert(numbers[i] == prior[i] && numbers[j] == prior[j]);
            }
        }
        lemma_with_number(prior, n);
        let last = numbers.len() - 1;
        if numbers.last() < n {
            assert forall|i: int| 0 <= i < numbers.len() implies #[trigger] numbers[i] < n by {
                if i < last {
                    assert(numbers[i] < numbers[last]);
                }
            }
        } else {
            assert forall|i: int| 0 <= i < number_position(numbers, n) implies #[trigger] numbers[i] < n by {
                assert(numbers[i] == prior[i]);
            }
            assert forall|i: int| number_position(numbers, n) <= i < numbers.len() implies #[trigger] numbers[i] >= n by {
                if i < last {
                    assert(numbers[i] == prior[i]);
                }
            }
        }
    }
    let p = number_position(numbers, n);
    let out = with_number(numbers, n);
    if !(p < numbers.len() && numbers[p] == n) {
        assert forall|i: int, j: int| 0 <= i < j < out.len() implies #[trigger] out[i] < #[trigger] out[j] by {
            if j < p {
                assert(out[i] == numbers[i] && out[j] == numbers[j]);
            } else if i < p && j == p {
                assert(out[i] == numbers[i]);
            } else if i < p {
                assert(out[i] == numbers[i] && out[j] == numbers[j - 1]);
            } else if i == p {
                assert(out[j] == numbers[j - 1]);
                if j - 1 > p {
                    assert(numbers[p] < numbers[j - 1]);
                }
            } else {
                assert(out[i] == numbers[i - 1] && out[j] == numbers[j - 1]);
            }
        }
        assert(out.to_set() =~= numbers.to_set().insert(n)) by {
            assert forall|v: u32| out.to_set().contains(v) <==> numbers.to_set().insert(n).contains(v) by {
                if out.to_set().contains(v) {
                    let i = choose|i: int| 0 <= i < out.len() && out[i] == v;
                    if i < p {
                        assert(numbers[i] == v);
                    } else if i > p {
                        assert(numbers[i - 1] == v);
                    }
                }
                if numbers.to_set().contains(v) {
                    let i = choose|i: int| 0 <= i < numbers.len() && numbers[i] == v;
                    if i < p {
                        assert(out[i] == v);
                    } else {
                        assert(out[i + 1] == v);
                    }
                }
                if v == n {
                    assert(out[p] == n);
                }
            }
        }
    } else {
        assert(out.to_set() =~= numbers.to_set().insert(n));
    }
}

/// Puts `n` among the numbers, keeping them in order and each once.
fn insert_number(numbers: &mut Vec<u32>, n: u32)
    requires
        numbers_increasing(old(numbers)@),
    ensures
        final(numbers)@ == with_number(old(numbers)@, n),
        numbers_increasing(final(numbers)@),
{
    let ghost start = numbers@;
    proof {
        lemma_with_number(start, n);
    }
    let mut p: usize = numbers.len();
    assert(start.take(p as int) =~= start);
    while p > 0 && numbers[p - 1] >= n
        invariant
            numbers@ == start,
            p <= start.len(),
            number_position(start.take(p as int), n) == number_position(start, n),
        decreases p,
    {
        assert(start.take(p as int).drop_last() =~= start.take(p as int - 1));
        p = p - 1;
    }
    proof {
        if p > 0 {
            assert(start.take(p as int).last() == start[p as int - 1]);
        }
    }
    if p < numbers.len() && numbers[p] == n {
        return;
    }
    numbers.insert(p, n);
}

/// Whether `n` is among numbers in order.
fn has_number(numbers: &Vec<u32>, n: u32) -> (found: bool)
    ensures
        found == numbers@.contains(n),
{
    let mut i: usize = 0;
    while i < numbers.len()
        invariant
            i <= numbers@.len(),
            forall|j: int| 0 <= j < i ==> numbers@[j] != n,
        decreases numbers@.len() - i,
    {
        if numbers[i] == n {
            assert(numbers@[i as int] == n);
            return true;
        }
        i = i + 1;
    }
    false
}

// ---------------------------------------------------------------------------
// The text surface of one render target.
// ---------------------------------------------------------------------------

/// What a render target shows as text: rows of runs by row number, filled
/// pixel rectangles, and the images placed on it, with the sequence number
/// of the last frame presented and the rows that frame changed (none when
/// it changed the whole surface).
#[derive(Debug, Clone, PartialEq, Eq)]
pub struct TextSurface {
    pub latest_seq: SeqNo,
    pub latest_dirty_rows: Vec<u32>,
    rows: Vec<(u32, TextSurfaceRow)>,
    pixel_rects: Vec<PixelFillRect>,
    image_surface_ids: Vec<String>,
}

/// A text surface seen as plain values.
pub struct TextSurfaceView {
    pub latest_seq: SeqNo,
    pub latest_dirty_rows: Seq<u32>,
    pub rows: Seq<(u32, Seq<RunView>)>,
    pub pixel_rects: Seq<PixelFillRect>,
    pub image_ids: Seq<Seq<char>>,
}

pub open spec fn surface_rows_view(rows: Seq<(u32, TextSurfaceRow)>) -> Seq<(u32, Seq<RunView>)> {
    rows.map_values(|entry: (u32, TextSurfaceRow)| (entry.0, entry.1@))
}

pub open spec fn ids_view(ids: Seq<String>) -> Seq<Seq<char>> {
    ids.map_values(|id: String| id@)
}

impl View for TextSurface {
    type V = TextSurfaceView;

    closed spec fn view(&self) -> TextSurfaceView {
        TextSurfaceView {
            latest_seq: self.latest_seq,
            latest_dirty_rows: self.latest_dirty_rows@,
            rows: surface_rows_view(self.rows@),
            pixel_rects: self.pixel_rects@,
            image_ids: ids_view(self.image_surface_ids@),
        }
    }
}

/// A surface whose rows are in order and can each hold runs.
pub open spec fn rows_wf(rows: Seq<(u32, Seq<RunView>)>) -> bool {
    &&& keys_increasing(rows)
    &&& forall|i: int| 0 <= i < rows.len() ==> row_wf(#[trigger] rows[i].1)
}

/// The surface of a target that nothing was presented to yet.
pub open spec fn empty_surface() -> TextSurfaceView {
    TextSurfaceView {
        latest_seq: SeqNo(0),
        latest_dirty_rows: Seq::empty(),
        rows: Seq::empty(),
        pixel_rects: Seq::empty(),
        image_ids: Seq::empty(),
    }
}

/// The runs of row `y`, none when it has no entry.
pub open spec fn runs_of_row(rows: Seq<(u32, Seq<RunView>)>, y: u32) -> Seq<RunView> {
    match entry_at(rows, y) {
        Some(runs) => runs,
        None => Seq::empty(),
    }
}

/// The rows after a run of text is put on row `y`; an empty text changes
/// nothing.
pub open spec fn with_text_run(rows: Seq<(u32, Seq<RunView>)>, y: u32, run: RunView) -> Seq<(u32, Seq<RunView>)> {
    if run.text.len() == 0 {
        rows
    } else {
        with_entry(
            rows,
            y,
            insert_run(runs_outside(runs_of_row(rows, y), run.x as int, run_end(run)), run),
        )
    }
}

#[verifier::spinoff_prover]
#[verifier::rlimit(40)]
pub proof fn lemma_with_text_run(rows: Seq<(u32, Seq<RunView>)>, y: u32, run: RunView)
    requires
        rows_wf(rows),
    ensures
        rows_wf(with_text_run(rows, y, run)),
{
    if run.text.len() > 0 {
        lemma_key_position(rows, y);
        let old_row = runs_of_row(rows, y);
        assert(row_wf(old_row));
        lemma_runs_outside(old_row, run.x as int, run_end(run));
        let kept = runs_outside(old_row, run.x as int, run_end(run));
        lemma_insert_run(kept, run);
        let new_row = insert_run(kept, run);
        lemma_with_entry(rows, y, new_row);
        let out = with_text_run(rows, y, run);
        let p = key_position(rows, y);
        assert forall|i: int| 0 <= i < out.len() implies row_wf(#[trigger] out[i].1) by {
            if p < rows.len() && rows[p].0 == y {
                if i != p {
                    assert(out[i] == rows[i]);
                }
            } else if i < p {
                assert(out[i] == rows[i]);
            } else if i > p {
                assert(out[i] == rows[i - 1]);
            }
        }
    }
}

/// Finds where row `y` is, or would go.
fn row_slot(rows: &Vec<(u32, TextSurfaceRow)>, y: u32) -> (p: usize)
    requires
        keys_increasing(surface_rows_view(rows@)),
    ensures
        p == key_position(surface_rows_view(rows@), y),
        p <= rows@.len(),
{
    let ghost entries = surface_rows_view(rows@);
    proof {
        lemma_key_position(entries, y);
    }
    let mut p: usize = rows.len();
    assert(entries.take(p as int) =~= entries);
    while p > 0 && rows[p - 1].0 >= y
        invariant
            entries == surface_rows_view(rows@),
            p <= rows@.len(),
            key_position(entries.take(p as int), y) == key_position(entries, y),
        decreases p,
    {
        assert(entries.take(p as int).drop_last() =~= entries.take(p as int - 1));
        assert(entries[p as int - 1].0 == rows@[p as int - 1].0);
        p = p - 1;
    }
    proof {
        if p > 0 {
            assert(entries.take(p as int).last() == entries[p as int - 1]);
            assert(entries[p as int - 1].0 == rows@[p as int - 1].0);
        }
    }
    p
}

impl Default for TextSurface {
    fn default() -> (surface: Self)
        ensures
            surface@ == empty_surface(),
    {
        let surface = TextSurface {
            latest_seq: SeqNo::new(0),
            latest_dirty_rows: Vec::new(),
            rows: Vec::new(),
            pixel_rects: Vec::new(),
            image_surface_ids: Vec::new(),
        };
        assert(surface@.rows =~= Seq::<(u32, Seq<RunView>)>::empty());
        assert(surface@.image_ids =~= Seq::<Seq<char>>::empty());
        surface
    }
}

impl TextSurface {
    /// The text of row `row`, if it has runs.
    pub fn text_at(&self, row: u32) -> (text: Option<String>)
        requires
            keys_increasing(self@.rows),
        ensures
            match entry_at(self@.rows, row) {
                Some(runs) => text matches Some(t) && t@ == composed_text(runs),
                None => text is None,
            },
    {
        let p = row_slot(&self.rows, row);
        if p < self.rows.len() && self.rows[p].0 == row {
            assert(self@.rows[p as int] == (self.rows@[p as int].0, self.rows@[p as int].1@));
            Some(self.rows[p].1.text())
        } else {
            None
        }
    }

    /// The text of each row, in order of the rows.
    pub fn line_texts(&self) -> (texts: Vec<String>)
        ensures
            texts@.len() == self@.rows.len(),
            forall|i: int| 0 <= i < texts@.len() ==> (#[trigger] texts@[i])@ == composed_text(self@.rows[i].1),
    {
        let mut texts: Vec<String> = Vec::new();
        let mut i: usize = 0;
        while i < self.rows.len()
            invariant
                i <= self.rows@.len(),
                texts@.len() == i,
                forall|j: int| 0 <= j < i ==> (#[trigger] texts@[j])@ == composed_text(self@.rows[j].1),
            decreases self.rows@.len() - i,
        {
            assert(self@.rows[i as int] == (self.rows@[i as int].0, self.rows@[i as int].1@));
            texts.push(self.rows[i].1.text());
            i = i + 1;
        }
        texts
    }

    /// The runs of row `row`, if it has any.
    pub fn row_runs(&self, row: u32) -> (runs: Option<&[TextSurfaceRun]>)
        requires
            keys_increasing(self@.rows),
        ensures
            match entry_at(self@.rows, row) {
                Some(expected) => runs matches Some(r) && text_runs_view(r@) == expected,
                None => runs is None,
            },
    {
        let p = row_slot(&self.rows, row);
        if p < self.rows.len() && self.rows[p].0 == row {
            assert(self@.rows[p as int] == (self.rows@[p as int].0, self.rows@[p as int].1@));
            Some(self.rows[p].1.runs())
        } else {
            None
        }
    }

    /// The rows, by increasing row number.
    pub fn rows(&self) -> (rows: &[(u32, TextSurfaceRow)])
        ensures
            surface_rows_view(rows@) == self@.rows,
    {
        self.rows.as_slice()
    }

    /// The filled pixel rectangles, in the order they were presented.
    pub fn pixel_rects(&self) -> (rects: &[PixelFillRect])
        ensures
            rects@ == self@.pixel_rects,
    {
        self.pixel_rects.as_slice()
    }

    /// How many images are placed on the surface.
    pub fn image_surface_count(&self) -> (count: usize)
        ensures
            count == self@.image_ids.len(),
    {
        self.image_surface_ids.len()
    }

    /// Puts a run of text on row `y` (see `with_text_run`).
    fn apply_text_run(&mut self, x: u32, y: u32, text: &str, style: TextStyleDto)
        requires
            rows_wf(old(self)@.rows),
        ensures
            final(self)@ == (TextSurfaceView {
                rows: with_text_run(old(self)@.rows, y, RunView { x, text: text@, style }),
                ..old(self)@
            }),
            rows_wf(final(self)@.rows),
    {
        let ghost run_view = RunView { x, text: text@, style };
        proof {
            lemma_with_text_run(old(self)@.rows, y, run_view);
        }
        if text.unicode_len() == 0 {
            return;
        }
        let ghost before = self.rows@;
        let p = row_slot(&self.rows, y);
        let run = TextSurfaceRun { x, text: text.to_string(), style };
        assert(run@ == run_view);
        proof {
            lemma_key_position(surface_rows_view(before), y);
        }
        if p < self.rows.len() && self.rows[p].0 == y {
            let (row_y, mut row) = self.rows.remove(p);
            assert(surface_rows_view(before)[p as int] == (row_y, row@));
            assert(row_wf(row@));
            row.apply_run(run);
            self.rows.insert(p, (y, row));
            assert(surface_rows_view(self.rows@) =~= with_text_run(surface_rows_view(before), y, run_view));
        } else {
            let mut row = TextSurfaceRow::new();
            row.apply_run(run);
            self.rows.insert(p, (y, row));
            assert(runs_outside(Seq::<RunView>::empty(), x as int, run_end(run_view)) =~= Seq::<RunView>::empty());
            assert(surface_rows_view(self.rows@) =~= with_text_run(surface_rows_view(before), y, run_view));
        }
    }
}

// ---------------------------------------------------------------------------
// Presenting a frame command by command.
// ---------------------------------------------------------------------------

pub open spec fn plain_style() -> TextStyleDto {
    TextStyleDto { foreground: None, background: None, bold: false, italic: false, underline: false }
}

/// The image ids without `id`, in order.
pub open spec fn without_id(ids: Seq<Seq<char>>, id: Seq<char>) -> Seq<Seq<char>>
    decreases ids.len(),
{
    if ids.len() == 0 {
        Seq::empty()
    } else {
        let kept = without_id(ids.drop_last(), id);
        if ids.last() == id {
            kept
        } else {
            kept.push(ids.last())
        }
    }
}

/// Whether the image of the `k`-th command could be loaded.
pub open spec fn image_loaded(loaded: Seq<bool>, k: int) -> bool {
    0 <= k < loaded.len() && loaded[k]
}

/// Where presenting a frame's commands one by one has got to: the surface so
/// far, the rows they changed, and whether one changed the whole surface.
pub struct IncrementalState {
    pub surface: TextSurfaceView,
    pub dirty: Seq<u32>,
    pub full_damage: bool,
}

/// An image command: the image, when it loaded, replaces any of the same id
/// and goes on top; the whole surface is changed.
pub open spec fn image_step(state: IncrementalState, id: Seq<char>, loaded: bool) -> IncrementalState {
    let surface = state.surface;
    IncrementalState {
        surface: if loaded {
            TextSurfaceView { image_ids: without_id(surface.image_ids, id).push(id), ..surface }
        } else {
            surface
        },
        full_damage: true,
        ..state
    }
}

/// One command presented on its own: a clear empties the surface; a row
/// clear empties that row; a run of text is put on its row (plain when it
/// has no style); a pixel rectangle is added; an image is placed. Rows that
/// a command touches are changed; clears, rectangles and images change the
/// whole surface.
pub open spec fn incremental_step(state: IncrementalState, command: RenderCommandView, loaded: bool) -> IncrementalState {
    let surface = state.surface;
    match command {
        RenderCommandView::Clear => IncrementalState {
            surface: TextSurfaceView {
                rows: Seq::empty(),
                pixel_rects: Seq::empty(),
                image_ids: Seq::empty(),
                ..surface
            },
            full_damage: true,
            ..state
        },
        RenderCommandView::ClearLine { y } => IncrementalState {
            surface: TextSurfaceView { rows: without_entry(surface.rows, y), ..surface },
            dirty: with_number(state.dirty, y),
            ..state
        },
        RenderCommandView::TextRun { x, y, text } => IncrementalState {
            surface: TextSurfaceView {
                rows: with_text_run(surface.rows, y, RunView { x, text, style: plain_style() }),
                ..surface
            },
            dirty: with_number(state.dirty, y),
            ..state
        },
        RenderCommandView::StyledTextRun { x, y, text, style } => IncrementalState {
            surface: TextSurfaceView { rows: with_text_run(surface.rows, y, RunView { x, text, style }), ..surface },
            dirty: with_number(state.dirty, y),
            ..state
        },
        RenderCommandView::PixelFillRect { rect } => IncrementalState {
            surface: TextSurfaceView { pixel_rects: surface.pixel_rects.push(rect), ..surface },
            full_damage: true,
            ..state
        },
        RenderCommandView::PngSurface { id, .. } => image_step(state, id, loaded),
        RenderCommandView::SharedRgbaSurface { id, .. } => image_step(state, id, loaded),
    }
}

/// The first `n` commands presented one by one.
pub open spec fn incremental_upto(
    start: TextSurfaceView,
    commands: Seq<RenderCommandView>,
    loaded: Seq<bool>,
    n: int,
) -> IncrementalState
    decreases n,
{
    if n <= 0 {
        IncrementalState { surface: start, dirty: Seq::empty(), full_damage: false }
    } else {
        incremental_step(incremental_upto(start, commands, loaded, n - 1), commands[n - 1], image_loaded(loaded, n - 1))
    }
}

/// Where the quick way of presenting a frame has got to: it stages the new
/// contents of the rows it may replace whole (those a row clear emptied, or
/// all of them after a clear) and the pixel rectangles after a clear, and
/// fails on anything else.
pub struct FastState {
    pub surface: TextSurfaceView,
    pub staged: Seq<(u32, Seq<RunView>)>,
    pub staged_pixels: Seq<PixelFillRect>,
    pub cleared: Seq<u32>,
    pub dirty: Seq<u32>,
    pub full_damage: bool,
    pub failed: bool,
}

/// A run of text staged on its row, or a failure when the row may not be
/// replaced whole.
pub open spec fn fast_run(state: FastState, y: u32, run: RunView) -> FastState {
    if !state.full_damage && !state.cleared.contains(y) {
        FastState { failed: true, ..state }
    } else {
        FastState {
            dirty: with_number(state.dirty, y),
            staged: with_entry(state.staged, y, runs_of_row(state.staged, y).push(run)),
            ..state
        }
    }
}

/// One command on the quick way: a clear empties the surface and all that
/// was staged; a row clear stages an empty row; runs are staged in the
/// order they come; pixel rectangles are staged after a clear; images, and
/// runs or rectangles that would change a surface not cleared, fail.
pub open spec fn fast_step(state: FastState, command: RenderCommandView) -> FastState {
    if state.failed {
        state
    } else {
        match command {
            RenderCommandView::Clear => FastState {
                surface: TextSurfaceView {
                    rows: Seq::empty(),
                    pixel_rects: Seq::empty(),
                    image_ids: Seq::empty(),
                    ..state.surface
                },
                staged: Seq::empty(),
                staged_pixels: Seq::empty(),
                cleared: Seq::empty(),
                dirty: Seq::empty(),
                full_damage: true,
                failed: false,
            },
            RenderCommandView::ClearLine { y } => FastState {
                dirty: with_number(state.dirty, y),
                cleared: with_number(state.cleared, y),
                staged: with_entry(state.staged, y, Seq::empty()),
                ..state
            },
            RenderCommandView::TextRun { x, y, text } => fast_run(state, y, RunView { x, text, style: plain_style() }),
            RenderCommandView::StyledTextRun { x, y, text, style } => fast_run(state, y, RunView { x, text, style }),
            RenderCommandView::PixelFillRect { rect } => if !state.full_damage {
                FastState { failed: true, ..state }
            } else {
                FastState { staged_pixels: state.staged_pixels.push(rect), ..state }
            },
            RenderCommandView::PngSurface { .. } => FastState { failed: true, ..state },
            RenderCommandView::SharedRgbaSurface { .. } => FastState { failed: true, ..state },
        }
    }
}

/// The first `n` commands on the quick way.
pub open spec fn fast_upto(start: TextSurfaceView, commands: Seq<RenderCommandView>, n: int) -> FastState
    decreases n,
{
    if n <= 0 {
        FastState {
            surface: start,
            staged: Seq::empty(),
            staged_pixels: Seq::empty(),
            cleared: Seq::empty(),
            dirty: Seq::empty(),
            full_damage: false,
            failed: false,
        }
    } else {
        fast_step(fast_upto(start, commands, n - 1), commands[n - 1])
    }
}

/// The rows with the first `n` staged rows put in: an empty one removed,
/// another sorted by starting cell.
pub open spec fn staged_rows_applied(
    rows: Seq<(u32, Seq<RunView>)>,
    staged: Seq<(u32, Seq<RunView>)>,
    n: int,
) -> Seq<(u32, Seq<RunView>)>
    decreases n,
{
    if n <= 0 {
        rows
    } else {
        let before = staged_rows_applied(rows, staged, n - 1);
        let (y, runs) = staged[n - 1];
        if runs.len() == 0 {
            without_entry(before, y)
        } else {
            with_entry(before, y, sorted_by_cell(runs))
        }
    }
}

/// A surface after a frame with sequence number `seq` is presented on it:
/// the quick way when it does not fail, with the rows it staged put in and,
/// after a clear, its pixel rectangles; else command by command, from the
/// surface as the quick way left it. The rows changed are kept unless the
/// whole surface changed.
pub open spec fn presented_surface(
    surface: TextSurfaceView,
    commands: Seq<RenderCommandView>,
    loaded: Seq<bool>,
    seq: SeqNo,
) -> TextSurfaceView {
    let fast = fast_upto(surface, commands, commands.len() as int);
    if !fast.failed {
        TextSurfaceView {
            latest_seq: seq,
            latest_dirty_rows: if fast.full_damage {
                Seq::empty()
            } else {
                fast.dirty
            },
            rows: staged_rows_applied(fast.surface.rows, fast.staged, fast.staged.len() as int),
            pixel_rects: if fast.full_damage {
                fast.staged_pixels
            } else {
                fast.surface.pixel_rects
            },
            ..fast.surface
        }
    } else {
        let slow = incremental_upto(fast.surface, commands, loaded, commands.len() as int);
        TextSurfaceView {
            latest_seq: seq,
            latest_dirty_rows: if slow.full_damage {
                Seq::empty()
            } else {
                slow.dirty
            },
            ..slow.surface
        }
    }
}

fn remove_image_id(ids: &mut Vec<String>, id: &String)
    ensures
        ids_view(final(ids)@) == without_id(ids_view(old(ids)@), id@),
{
    let ghost start = ids_view(ids@);
    let mut kept: Vec<String> = Vec::new();
    let mut i: usize = 0;
    while i < ids.len()
        invariant
            start == ids_view(ids@),
            i <= ids@.len(),
            ids_view(kept@) == without_id(start.take(i as int), id@),
        decreases ids@.len() - i,
    {
        proof {
            let taken = start.take(i as int + 1);
            assert(taken.drop_last() =~= start.take(i as int));
            assert(taken.last() == ids@[i as int]@);
        }
        if ids[i] != *id {
            let ghost before = ids_view(kept@);
            kept.push(ids[i].clone());
            assert(ids_view(kept@) =~= before.push(ids@[i as int]@));
        }
        i = i + 1;
    }
    assert(start.take(ids@.len() as int) =~= start);
    *ids = kept;
}

fn pixel_rect_of(x_px: u32, y_px: u32, width_px: u32, height_px: u32, color: RgbaColorDto) -> (rect: PixelFillRect)
    ensures
        rect == (PixelFillRect { x_px, y_px, width_px, height_px, color }),
{
    PixelFillRect { x_px, y_px, width_px, height_px, color }
}

impl TextSurface {
    /// Removes row `y`.
    fn remove_row(&mut self, y: u32)
        requires
            rows_wf(old(self)@.rows),
        ensures
            final(self)@ == (TextSurfaceView { rows: without_entry(old(self)@.rows, y), ..old(self)@ }),
            rows_wf(final(self)@.rows),
    {
        let ghost before = self@.rows;
        proof {
            lemma_with_entry(before, y, Seq::<RunView>::empty());
            lemma_key_position(before, y);
        }
        let p = row_slot(&self.rows, y);
        if p < self.rows.len() && self.rows[p].0 == y {
            self.rows.remove(p);
            assert(self@.rows =~= without_entry(before, y));
        }
        let ghost after = self@.rows;
        assert forall|i: int| 0 <= i < after.len() implies row_wf(#[trigger] after[i].1) by {
            if p < before.len() && before[p as int].0 == y && i >= p {
                assert(after[i] == before[i + 1]);
            } else {
                assert(after[i] == before[i]);
            }
        }
    }

    /// Places an image: any of the same id goes, and it goes on top.
    fn place_image(&mut self, id: &String)
        ensures
            final(self)@ == (TextSurfaceView {
                image_ids: without_id(old(self)@.image_ids, id@).push(id@),
                ..old(self)@
            }),
    {
        remove_image_id(&mut self.image_surface_ids, id);
        let ghost before = ids_view(self.image_surface_ids@);
        self.image_surface_ids.push(id.clone());
        assert(ids_view(self.image_surface_ids@) =~= before.push(id@));
    }

    /// Empties the surface of rows, pixel rectangles and images.
    fn clear_contents(&mut self)
        ensures
            final(self)@ == (TextSurfaceView {
                rows: Seq::empty(),
                pixel_rects: Seq::empty(),
                image_ids: Seq::empty(),
                ..old(self)@
            }),
    {
        self.rows = Vec::new();
        self.pixel_rects = Vec::new();
        self.image_surface_ids = Vec::new();
        assert(self@.rows =~= Seq::<(u32, Seq<RunView>)>::empty());
        assert(self@.image_ids =~= Seq::<Seq<char>>::empty());
    }
}

/// Presents a frame's commands one by one (see `incremental_step`); the
/// rows changed are kept unless the whole surface changed.
fn present_incremental(surface: &mut TextSurface, commands: &Vec<RenderCommandDto>, loaded: &[bool])
    requires
        rows_wf(old(surface)@.rows),
    ensures
        rows_wf(final(surface)@.rows),
        final(surface)@ == ({
            let slow = incremental_upto(old(surface)@, commands_view(commands@), loaded@, commands@.len() as int);
            TextSurfaceView {
                latest_dirty_rows: if slow.full_damage {
                    Seq::empty()
                } else {
                    slow.dirty
                },
                ..slow.surface
            }
        }),
{
    let ghost start = surface@;
    let ghost cmds = commands_view(commands@);
    let mut dirty: Vec<u32> = Vec::new();
    let mut full_damage = false;
    let mut k: usize = 0;
    while k < commands.len()
        invariant
            cmds == commands_view(commands@),
            k <= commands@.len(),
            rows_wf(surface@.rows),
            numbers_increasing(dirty@),
            incremental_upto(start, cmds, loaded@, k as int) == (IncrementalState {
                surface: surface@,
                dirty: dirty@,
                full_damage,
            }),
        decreases commands@.len() - k,
    {
        let is_loaded = k < loaded.len() && loaded[k];
        assert(is_loaded == image_loaded(loaded@, k as int));
        assert(cmds[k as int] == commands@[k as int]@);
        match &commands[k] {
            RenderCommandDto::Clear => {
                surface.clear_contents();
                full_damage = true;
            },
            RenderCommandDto::ClearLine { y } => {
                insert_number(&mut dirty, *y);
                surface.remove_row(*y);
            },
            RenderCommandDto::TextRun { x, y, text } => {
                insert_number(&mut dirty, *y);
                surface.apply_text_run(*x, *y, text.as_str(), TextStyleDto::plain());
            },
            RenderCommandDto::StyledTextRun { x, y, text, style } => {
                insert_number(&mut dirty, *y);
                surface.apply_text_run(*x, *y, text.as_str(), *style);
            },
            RenderCommandDto::PixelFillRect { x_px, y_px, width_px, height_px, color } => {
                let rect = pixel_rect_of(*x_px, *y_px, *width_px, *height_px, *color);
                surface.pixel_rects.push(rect);
                full_damage = true;
            },
            RenderCommandDto::PngSurface { id, .. } => {
                if is_loaded {
                    surface.place_image(id);
                }
                full_damage = true;
            },
            RenderCommandDto::SharedRgbaSurface { id, .. } => {
                if is_loaded {
                    surface.place_image(id);
                }
                full_damage = true;
            },
        }
        k = k + 1;
    }
    if full_damage {
        surface.latest_dirty_rows = Vec::new();
    } else {
        surface.latest_dirty_rows = dirty;
    }
}

// ---------------------------------------------------------------------------
// The quick way.
// ---------------------------------------------------------------------------

pub proof fn lemma_sorted_by_cell_is_sorted(runs: Seq<RunView>)
    ensures
        runs_sorted(sorted_by_cell(runs)),
        sorted_by_cell(runs).len() == runs.len(),
    decreases runs.len(),
{
    if runs.len() > 0 {
        lemma_sorted_by_cell_is_sorted(runs.drop_last());
        lemma_insert_run(sorted_by_cell(runs.drop_last()), runs.last());
    }
}

/// The runs sorted by starting cell, runs that start at the same cell kept
/// in their order.
fn sort_runs_by_cell(runs: &Vec<TextSurfaceRun>) -> (sorted: Vec<TextSurfaceRun>)
    ensures
        text_runs_view(sorted@) == sorted_by_cell(text_runs_view(runs@)),
        runs_sorted(text_runs_view(sorted@)),
{
    let ghost all = text_runs_view(runs@);
    let mut sorted: Vec<TextSurfaceRun> = Vec::new();
    let mut i: usize = 0;
    while i < runs.len()
        invariant
            all == text_runs_view(runs@),
            i <= runs@.len(),
            text_runs_view(sorted@) == sorted_by_cell(all.take(i as int)),
        decreases runs@.len() - i,
    {
        let ghost current = text_runs_view(sorted@);
        proof {
            lemma_sorted_by_cell_is_sorted(all.take(i as int));
        }
        let x = runs[i].x;
        let mut p: usize = sorted.len();
        assert(current.take(p as int) =~= current);
        while p > 0 && sorted[p - 1].x > x
            invariant
                p <= sorted@.len(),
                current == text_runs_view(sorted@),
                insert_position(current.take(p as int), x) == insert_position(current, x),
            decreases p,
        {
            proof {
                assert(current.take(p as int).drop_last() =~= current.take(p as int - 1));
                assert(current[p as int - 1] == sorted@[p as int - 1]@);
            }
            p = p - 1;
        }
        proof {
            if p > 0 {
                assert(current[p as int - 1] == sorted@[p as int - 1]@);
                assert(current.take(p as int).last() == current[p as int - 1]);
            }
            let taken = all.take(i as int + 1);
            assert(taken.drop_last() =~= all.take(i as int));
            assert(taken.last() == runs@[i as int]@);
        }
        sorted.insert(p, copy_run(&runs[i]));
        assert(text_runs_view(sorted@) =~= insert_run(current, runs@[i as int]@));
        i = i + 1;
    }
    assert(all.take(runs@.len() as int) =~= all);
    proof {
        lemma_sorted_by_cell_is_sorted(all);
    }
    sorted
}

impl TextSurface {
    /// Sets row `y` to `row`.
    fn set_row(&mut self, y: u32, row: TextSurfaceRow)
        requires
            rows_wf(old(self)@.rows),
            row_wf(row@),
        ensures
            final(self)@ == (TextSurfaceView { rows: with_entry(old(self)@.rows, y, row@), ..old(self)@ }),
            rows_wf(final(self)@.rows),
    {
        let ghost before = self@.rows;
        let ghost value = row@;
        proof {
            lemma_with_entry(before, y, value);
            lemma_key_position(before, y);
        }
        let p = row_slot(&self.rows, y);
        if p < self.rows.len() && self.rows[p].0 == y {
            self.rows.set(p, (y, row));
        } else {
            self.rows.insert(p, (y, row));
        }
        assert(self@.rows =~= with_entry(before, y, value));
        let ghost after = self@.rows;
        assert forall|i: int| 0 <= i < after.len() implies row_wf(#[trigger] after[i].1) by {
            if p < before.len() && before[p as int].0 == y {
                if i != p {
                    assert(after[i] == before[i]);
                }
            } else if i < p {
                assert(after[i] == before[i]);
            } else if i > p {
                assert(after[i] == before[i - 1]);
            }
        }
    }
}

pub open spec fn staged_view(staged: Seq<(u32, Vec<TextSurfaceRun>)>) -> Seq<(u32, Seq<RunView>)> {
    staged.map_values(|entry: (u32, Vec<TextSurfaceRun>)| (entry.0, text_runs_view(entry.1@)))
}

/// Finds where staged row `y` is, or would go.
fn staged_slot(staged: &Vec<(u32, Vec<TextSurfaceRun>)>, y: u32) -> (p: usize)
    requires
        keys_increasing(staged_view(staged@)),
    ensures
        p == key_position(staged_view(staged@), y),
        p <= staged@.len(),
{
    let ghost entries = staged_view(staged@);
    proof {
        lemma_key_position(entries, y);
    }
    let mut p: usize = staged.len();
    assert(entries.take(p as int) =~= entries);
    while p > 0 && staged[p - 1].0 >= y
        invariant
            entries == staged_view(staged@),
            p <= staged@.len(),
            key_position(entries.take(p as int), y) == key_position(entries, y),
        decreases p,
    {
        assert(entries.take(p as int).drop_last() =~= entries.take(p as int - 1));
        assert(entries[p as int - 1].0 == staged@[p as int - 1].0);
        p = p - 1;
    }
    proof {
        if p > 0 {
            assert(entries.take(p as int).last() == entries[p as int - 1]);
            assert(entries[p as int - 1].0 == staged@[p as int - 1].0);
        }
    }
    p
}

/// Stages row `y` as empty.
fn stage_empty_row(staged: &mut Vec<(u32, Vec<TextSurfaceRun>)>, y: u32)
    requires
        keys_increasing(staged_view(old(staged)@)),
    ensures
        staged_view(final(staged)@) == with_entry(staged_view(old(staged)@), y, Seq::<RunView>::empty()),
        keys_increasing(staged_view(final(staged)@)),
{
    let ghost before = staged_view(staged@);
    proof {
        lemma_with_entry(before, y, Seq::<RunView>::empty());
    }
    let p = staged_slot(staged, y);
    let empty: Vec<TextSurfaceRun> = Vec::new();
    assert(text_runs_view(empty@) =~= Seq::<RunView>::empty());
    if p < staged.len() && staged[p].0 == y {
        staged.set(p, (y, empty));
    } else {
        staged.insert(p, (y, empty));
    }
    assert(staged_view(staged@) =~= with_entry(before, y, Seq::<RunView>::empty()));
}

/// Stages a run at the end of row `y`.
fn stage_run(staged: &mut Vec<(u32, Vec<TextSurfaceRun>)>, y: u32, run: TextSurfaceRun)
    requires
        keys_increasing(staged_view(old(staged)@)),
    ensures
        staged_view(final(staged)@) == with_entry(
            staged_view(old(staged)@),
            y,
            runs_of_row(staged_view(old(staged)@), y).push(run@),
        ),
        keys_increasing(staged_view(final(staged)@)),
{
    let ghost before = staged_view(staged@);
    let ghost run_view = run@;
    proof {
        lemma_with_entry(before, y, runs_of_row(before, y).push(run_view));
    }
    let p = staged_slot(staged, y);
    if p < staged.len() && staged[p].0 == y {
        let (row_y, mut runs) = staged.remove(p);
        assert(before[p as int] == (row_y, text_runs_view(runs@)));
        let ghost prior = text_runs_view(runs@);
        runs.push(run);
        assert(text_runs_view(runs@) =~= prior.push(run_view));
        staged.insert(p, (y, runs));
    } else {
        let mut runs: Vec<TextSurfaceRun> = Vec::new();
        runs.push(run);
        assert(text_runs_view(runs@) =~= Seq::<RunView>::empty().push(run_view));
        staged.insert(p, (y, runs));
    }
    assert(staged_view(staged@) =~= with_entry(before, y, runs_of_row(before, y).push(run_view)));
}

pub proof fn lemma_fast_failure_stays(start: TextSurfaceView, commands: Seq<RenderCommandView>, k: int, n: int)
    requires
        0 <= k <= n,
        fast_upto(start, commands, k).failed,
    ensures
        fast_upto(start, commands, n) == fast_upto(start, commands, k),
    decreases n - k,
{
    if n > k {
        lemma_fast_failure_stays(start, commands, k, n - 1);
    }
}

/// Presents a frame the quick way when it can (see `fast_step`): the rows
/// it stages replace the surface's, and after a clear so do its pixel
/// rectangles. Returns whether the whole surface changed, with the rows
/// changed otherwise; none when the quick way fails.
#[verifier::rlimit(30)]
fn try_present_fast(surface: &mut TextSurface, commands: &Vec<RenderCommandDto>) -> (outcome: Option<(bool, Vec<u32>)>)
    requires
        rows_wf(old(surface)@.rows),
    ensures
        rows_wf(final(surface)@.rows),
        ({
            let fast = fast_upto(old(surface)@, commands_view(commands@), commands@.len() as int);
            if fast.failed {
                outcome is None && final(surface)@ == fast.surface
            } else {
                &&& outcome matches Some((full_damage, dirty_rows)) && full_damage == fast.full_damage
                    && dirty_rows@ == (if full_damage {
                    Seq::<u32>::empty()
                } else {
                    fast.dirty
                })
                &&& final(surface)@ == (TextSurfaceView {
                    rows: staged_rows_applied(fast.surface.rows, fast.staged, fast.staged.len() as int),
                    pixel_rects: if fast.full_damage {
                        fast.staged_pixels
                    } else {
                        fast.surface.pixel_rects
                    },
                    ..fast.surface
                })
            }
        }),
{
    let ghost start = surface@;
    let ghost cmds = commands_view(commands@);
    let mut dirty: Vec<u32> = Vec::new();
    let mut staged: Vec<(u32, Vec<TextSurfaceRun>)> = Vec::new();
    let mut staged_pixels: Vec<PixelFillRect> = Vec::new();
    let mut cleared: Vec<u32> = Vec::new();
    let mut full_damage = false;
    assert(staged_view(staged@) =~= Seq::<(u32, Seq<RunView>)>::empty());
    let mut k: usize = 0;
    while k < commands.len()
        invariant
            start == old(surface)@,
            cmds == commands_view(commands@),
            k <= commands@.len(),
            rows_wf(surface@.rows),
            numbers_increasing(dirty@),
            numbers_increasing(cleared@),
            keys_increasing(staged_view(staged@)),
            fast_upto(start, cmds, k as int) == (FastState {
                surface: surface@,
                staged: staged_view(staged@),
                staged_pixels: staged_pixels@,
                cleared: cleared@,
                dirty: dirty@,
                full_damage,
                failed: false,
            }),
        decreases commands@.len() - k,
    {
        assert(cmds[k as int] == commands@[k as int]@);
        let ghost state = fast_upto(start, cmds, k as int);
        match &commands[k] {
            RenderCommandDto::Clear => {
                surface.clear_contents();
                staged = Vec::new();
                staged_pixels = Vec::new();
                cleared = Vec::new();
                dirty = Vec::new();
                full_damage = true;
                assert(staged_view(staged@) =~= Seq::<(u32, Seq<RunView>)>::empty());
            },
            RenderCommandDto::ClearLine { y } => {
                insert_number(&mut dirty, *y);
                insert_number(&mut cleared, *y);
                stage_empty_row(&mut staged, *y);
            },
            RenderCommandDto::TextRun { x, y, text } => {
                if !full_damage && !has_number(&cleared, *y) {
                    proof {
                        assert(fast_upto(start, cmds, k as int + 1) == fast_step(state, cmds[k as int]));
                        assert(fast_upto(start, cmds, k as int + 1).surface == surface@);
                        lemma_fast_failure_stays(start, cmds, k as int + 1, cmds.len() as int);
                    }
                    return None;
                }
                insert_number(&mut dirty, *y);
                let run = TextSurfaceRun { x: *x, text: text.clone(), style: TextStyleDto::plain() };
                stage_run(&mut staged, *y, run);
            },
            RenderCommandDto::StyledTextRun { x, y, text, style } => {
                if !full_damage && !has_number(&cleared, *y) {
                    proof {
                        assert(fast_upto(start, cmds, k as int + 1) == fast_step(state, cmds[k as int]));
                        assert(fast_upto(start, cmds, k as int + 1).surface == surface@);
                        lemma_fast_failure_stays(start, cmds, k as int + 1, cmds.len() as int);
                    }
                    return None;
                }
                insert_number(&mut dirty, *y);
                let run = TextSurfaceRun { x: *x, text: text.clone(), style: *style };
                stage_run(&mut staged, *y, run);
            },
            RenderCommandDto::PixelFillRect { x_px, y_px, width_px, height_px, color } => {
                if !full_damage {
                    proof {
                        lemma_fast_failure_stays(start, cmds, k as int + 1, cmds.len() as int);
                    }
                    return None;
                }
                staged_pixels.push(pixel_rect_of(*x_px, *y_px, *width_px, *height_px, *color));
            },
            RenderCommandDto::PngSurface { .. } => {
                proof {
                    lemma_fast_failure_stays(start, cmds, k as int + 1, cmds.len() as int);
                }
                return None;
            },
            RenderCommandDto::SharedRgbaSurface { .. } => {
                proof {
                    lemma_fast_failure_stays(start, cmds, k as int + 1, cmds.len() as int);
                }
                return None;
            },
        }
        k = k + 1;
    }
    let ghost fast = fast_upto(start, cmds, cmds.len() as int);
    let ghost staged_rows = staged_view(staged@);
    let ghost base = surface@.rows;
    let mut i: usize = 0;
    while i < staged.len()
        invariant
            staged_rows == staged_view(staged@),
            i <= staged@.len(),
            rows_wf(surface@.rows),
            surface@ == (TextSurfaceView { rows: staged_rows_applied(base, staged_rows, i as int), ..fast.surface }),
        decreases staged@.len() - i,
    {
        let y = staged[i].0;
        assert(staged_rows[i as int] == (y, text_runs_view(staged@[i as int].1@)));
        if staged[i].1.len() == 0 {
            surface.remove_row(y);
        } else {
            let sorted = sort_runs_by_cell(&staged[i].1);
            let row = TextSurfaceRow { runs: sorted };
            surface.set_row(y, row);
        }
        i = i + 1;
    }
    if full_damage {
        surface.pixel_rects = staged_pixels;
        Some((true, Vec::new()))
    } else {
        Some((false, dirty))
    }
}

// ---------------------------------------------------------------------------
// The presenter: one text surface per render target.
// ---------------------------------------------------------------------------

/// Keeps the text surface of each render target that frames were presented
/// to, and presents a frame only when it is newer than the surface's last.
#[derive(Debug)]
pub struct TextSurfaceFramePlanPresenter {
    surfaces: Vec<(RenderTargetId, TextSurface)>,
}

pub open spec fn surfaces_view(surfaces: Seq<(RenderTargetId, TextSurface)>) -> Seq<(RenderTargetId, TextSurfaceView)> {
    surfaces.map_values(|entry: (RenderTargetId, TextSurface)| (entry.0, entry.1@))
}

impl View for TextSurfaceFramePlanPresenter {
    type V = Seq<(RenderTargetId, TextSurfaceView)>;

    closed spec fn view(&self) -> Seq<(RenderTargetId, TextSurfaceView)> {
        surfaces_view(self.surfaces@)
    }
}

/// Where the surface of `target` is kept, or -1 when it has none.
pub open spec fn surface_index(surfaces: Seq<(RenderTargetId, TextSurfaceView)>, target: RenderTargetId) -> int
    decreases surfaces.len(),
{
    if surfaces.len() == 0 {
        -1
    } else {
        let found = surface_index(surfaces.drop_last(), target);
        if found >= 0 {
            found
        } else if surfaces.last().0 == target {
            surfaces.len() - 1
        } else {
            -1
        }
    }
}

/// The surface of `target`, if a frame was presented to it.
pub open spec fn surface_for(surfaces: Seq<(RenderTargetId, TextSurfaceView)>, target: RenderTargetId) -> Option<
    TextSurfaceView,
> {
    let i = surface_index(surfaces, target);
    if i >= 0 {
        Some(surfaces[i].1)
    } else {
        None
    }
}

/// The surfaces with that of `target` set to `surface`.
pub open spec fn with_surface(
    surfaces: Seq<(RenderTargetId, TextSurfaceView)>,
    target: RenderTargetId,
    surface: TextSurfaceView,
) -> Seq<(RenderTargetId, TextSurfaceView)> {
    let i = surface_index(surfaces, target);
    if i >= 0 {
        surfaces.update(i, (target, surface))
    } else {
        surfaces.push((target, surface))
    }
}

/// A frame is presented when its target has no surface yet or the frame's
/// sequence number is above the surface's latest.
pub open spec fn frame_is_newer(surfaces: Seq<(RenderTargetId, TextSurfaceView)>, target: RenderTargetId, seq: SeqNo) -> bool {
    match surface_for(surfaces, target) {
        Some(surface) => surface.latest_seq.0 < seq.0,
        None => true,
    }
}

/// The surfaces after a frame is presented (see `presented_surface`), when
/// it is newer than its target's surface; unchanged otherwise.
pub open spec fn after_present(
    surfaces: Seq<(RenderTargetId, TextSurfaceView)>,
    target: RenderTargetId,
    seq: SeqNo,
    commands: Seq<RenderCommandView>,
    loaded: Seq<bool>,
) -> Seq<(RenderTargetId, TextSurfaceView)> {
    if frame_is_newer(surfaces, target, seq) {
        let start = match surface_for(surfaces, target) {
            Some(surface) => surface,
            None => empty_surface(),
        };
        with_surface(surfaces, target, presented_surface(start, commands, loaded, seq))
    } else {
        surfaces
    }
}

/// Every surface's rows are in order and each in order of its runs.
pub open spec fn surfaces_wf(surfaces: Seq<(RenderTargetId, TextSurfaceView)>) -> bool {
    forall|i: int| 0 <= i < surfaces.len() ==> rows_wf(#[trigger] surfaces[i].1.rows)
}

pub proof fn lemma_surface_index(surfaces: Seq<(RenderTargetId, TextSurfaceView)>, target: RenderTargetId)
    ensures
        -1 <= surface_index(surfaces, target) < surfaces.len(),
        surface_index(surfaces, target) >= 0 ==> surfaces[surface_index(surfaces, target)].0 == target,
        forall|j: int|
            0 <= j < surfaces.len() && (surface_index(surfaces, target) < 0 || j < surface_index(surfaces, target))
                ==> (#[trigger] surfaces[j]).0 != target,
    decreases surfaces.len(),
{
    if surfaces.len() > 0 {
        let prior = surfaces.drop_last();
        lemma_surface_index(prior, target);
        assert forall|j: int|
            0 <= j < surfaces.len() && (surface_index(surfaces, target) < 0 || j < surface_index(surfaces, target))
                implies (#[trigger] surfaces[j]).0 != target by {
            if j < prior.len() {
                assert(surfaces[j] == prior[j]);
            }
        }
        if surface_index(prior, target) >= 0 {
            assert(surfaces[surface_index(prior, target)] == prior[surface_index(prior, target)]);
        }
    }
}

impl TextSurfaceFramePlanPresenter {
    /// A presenter with no surfaces.
    pub fn new() -> (presenter: Self)
        ensures
            presenter@ == Seq::<(RenderTargetId, TextSurfaceView)>::empty(),
    {
        let presenter = TextSurfaceFramePlanPresenter { surfaces: Vec::new() };
        assert(presenter@ =~= Seq::<(RenderTargetId, TextSurfaceView)>::empty());
        presenter
    }

    fn slot_of(&self, target: RenderTargetId) -> (i: usize)
        ensures
            i <= self@.len(),
            i < self@.len() <==> surface_index(self@, target) >= 0,
            i < self@.len() ==> i == surface_index(self@, target),
    {
        proof {
            lemma_surface_index(self@, target);
        }
        let mut i: usize = 0;
        while i < self.surfaces.len()
            invariant
                i <= self@.len(),
                self@.len() == self.surfaces@.len(),
                forall|j: int| 0 <= j < i ==> (#[trigger] self@[j]).0 != target,
            decreases self.surfaces@.len() - i,
        {
            assert(self@[i as int].0 == self.surfaces@[i as int].0);
            if self.surfaces[i].0 == target {
                proof {
                    lemma_surface_index(self@, target);
                    let found = surface_index(self@, target);
                    if found < 0 || found > i {
                        assert(self@[i as int].0 != target);
                    }
                }
                return i;
            }
            i = i + 1;
        }
        proof {
            lemma_surface_index(self@, target);
            let found = surface_index(self@, target);
            if found >= 0 {
                assert(self@[found].0 != target);
            }
        }
        i
    }

    /// The surface of `target`, if a frame was presented to it.
    pub fn surface_of(&self, target_id: RenderTargetId) -> (surface: Option<TextSurface>)
        ensures
            match surface_for(self@, target_id) {
                Some(expected) => surface matches Some(s) && s@ == expected,
                None => surface is None,
            },
    {
        let i = self.slot_of(target_id);
        if i < self.surfaces.len() {
            assert(self@[i as int] == (self.surfaces@[i as int].0, self.surfaces@[i as int].1@));
            Some(self.surfaces[i].1.duplicate())
        } else {
            None
        }
    }

    /// Presents a frame to its target's surface when it is newer than the
    /// surface's last (see `after_present`), and says whether it did.
    /// `image_loaded[k]` tells whether the image of the `k`-th command, if it
    /// places one, could be loaded.
    pub fn present(&mut self, frame: &BuiltFramePlan, image_loaded: &[bool]) -> (presented: bool)
        requires
            surfaces_wf(old(self)@),
        ensures
            surfaces_wf(final(self)@),
            presented == frame_is_newer(old(self)@, frame.target_id, frame.seq),
            final(self)@ == after_present(
                old(self)@,
                frame.target_id,
                frame.seq,
                commands_view(frame.commands@),
                image_loaded@,
            ),
    {
        let ghost before = self@;
        let target = frame.target_id;
        let i = self.slot_of(target);
        let found = i < self.surfaces.len();
        if found {
            assert(before[i as int] == (self.surfaces@[i as int].0, self.surfaces@[i as int].1@));
            if self.surfaces[i].1.latest_seq.0 >= frame.seq.0 {
                return false;
            }
        }
        let mut surface = if found {
            let (_, surface) = self.surfaces.remove(i);
            surface
        } else {
            TextSurface::default()
        };
        let ghost start = surface@;
        assert(rows_wf(start.rows)) by {
            if found {
                assert(before[i as int].1 == start);
            }
        }
        match try_present_fast(&mut surface, &frame.commands) {
            Some((full_damage, dirty_rows)) => {
                surface.latest_seq = frame.seq;
                surface.latest_dirty_rows = if full_damage {
                    Vec::new()
                } else {
                    dirty_rows
                };
            },
            None => {
                present_incremental(&mut surface, &frame.commands, image_loaded);
                surface.latest_seq = frame.seq;
            },
        }
        assert(surface@ == presented_surface(start, commands_view(frame.commands@), image_loaded@, frame.seq));
        if found {
            self.surfaces.insert(i, (target, surface));
        } else {
            self.surfaces.push((target, surface));
        }
        assert(self@ =~= with_surface(before, target, surface@));
        assert forall|j: int| 0 <= j < self@.len() implies rows_wf(#[trigger] self@[j].1.rows) by {
            if j != i {
                assert(self@[j] == before[j]);
            }
        }
        true
    }
}

impl TextSurface {
    /// A copy of the surface.
    fn duplicate(&self) -> (copy: TextSurface)
        ensures
            copy@ == self@,
    {
        let mut rows: Vec<(u32, TextSurfaceRow)> = Vec::new();
        let mut i: usize = 0;
        while i < self.rows.len()
            invariant
                i <= self.rows@.len(),
                surface_rows_view(rows@) == surface_rows_view(self.rows@).take(i as int),
            decreases self.rows@.len() - i,
        {
            let (y, row) = (self.rows[i].0, &self.rows[i].1);
            let mut runs: Vec<TextSurfaceRun> = Vec::new();
            let mut k: usize = 0;
            while k < row.runs.len()
                invariant
                    k <= row.runs@.len(),
                    text_runs_view(runs@) == text_runs_view(row.runs@).take(k as int),
                decreases row.runs@.len() - k,
            {
                let ghost before = text_runs_view(runs@);
                runs.push(copy_run(&row.runs[k]));
                assert(text_runs_view(runs@) =~= before.push(row.runs@[k as int]@));
                assert(text_runs_view(runs@) =~= text_runs_view(row.runs@).take(k as int + 1));
                k = k + 1;
            }
            assert(text_runs_view(row.runs@).take(row.runs@.len() as int) =~= text_runs_view(row.runs@));
            let ghost before = surface_rows_view(rows@);
            let copy = TextSurfaceRow { runs };
            assert(copy@ == row@);
            rows.push((y, copy));
            assert(surface_rows_view(rows@) =~= before.push((y, row@)));
            assert(surface_rows_view(self.rows@)[i as int] == (y, row@));
            assert(surface_rows_view(rows@) =~= surface_rows_view(self.rows@).take(i as int + 1));
            i = i + 1;
        }
        assert(surface_rows_view(self.rows@).take(self.rows@.len() as int) =~= surface_rows_view(self.rows@));
        let mut ids: Vec<String> = Vec::new();
        let mut j: usize = 0;
        while j < self.image_surface_ids.len()
            invariant
                j <= self.image_surface_ids@.len(),
                ids_view(ids@) == ids_view(self.image_surface_ids@).take(j as int),
            decreases self.image_surface_ids@.len() - j,
        {
            let ghost before = ids_view(ids@);
            ids.push(self.image_surface_ids[j].clone());
            assert(ids_view(ids@) =~= before.push(self.image_surface_ids@[j as int]@));
            assert(ids_view(ids@) =~= ids_view(self.image_surface_ids@).take(j as int + 1));
            j = j + 1;
        }
        assert(ids_view(self.image_surface_ids@).take(self.image_surface_ids@.len() as int) =~= ids_view(
            self.image_surface_ids@,
        ));
        let mut dirty: Vec<u32> = Vec::new();
        let mut d: usize = 0;
        while d < self.latest_dirty_rows.len()
            invariant
                d <= self.latest_dirty_rows@.len(),
                dirty@ == self.latest_dirty_rows@.take(d as int),
            decreases self.latest_dirty_rows@.len() - d,
        {
            dirty.push(self.latest_dirty_rows[d]);
            assert(dirty@ =~= self.latest_dirty_rows@.take(d as int + 1));
            d = d + 1;
        }
        assert(self.latest_dirty_rows@.take(self.latest_dirty_rows@.len() as int) =~= self.latest_dirty_rows@);
        let mut rects: Vec<PixelFillRect> = Vec::new();
        let mut r: usize = 0;
        while r < self.pixel_rects.len()
            invariant
                r <= self.pixel_rects@.len(),
                rects@ == self.pixel_rects@.take(r as int),
            decreases self.pixel_rects@.len() - r,
        {
            rects.push(self.pixel_rects[r]);
            assert(rects@ =~= self.pixel_rects@.take(r as int + 1));
            r = r + 1;
        }
        assert(self.pixel_rects@.take(self.pixel_rects@.len() as int) =~= self.pixel_rects@);
        TextSurface {
            latest_seq: self.latest_seq,
            latest_dirty_rows: dirty,
            rows,
            pixel_rects: rects,
            image_surface_ids: ids,
        }
    }
}

// ---------------------------------------------------------------------------
// Snapshots of a text surface.
// ---------------------------------------------------------------------------

/// The row number of the first pixel rectangle's row in a snapshot; the
/// others follow it.
pub const PIXEL_RECT_ROW_BASE: u32 = 0xffff_efff;

/// The rows of pixel rectangles from the `k`-th on: one for each rectangle
/// that has a text encoding, at row `PIXEL_RECT_ROW_BASE + k`, with one
/// plain run of that text at cell 0.
pub open spec fn pixel_rect_rows(encoded: Seq<Option<Seq<char>>>, count: int, k: int) -> Seq<RowView>
    decreases count - k,
{
    if k >= count {
        Seq::empty()
    } else {
        let rest = pixel_rect_rows(encoded, count, k + 1);
        if 0 <= k < encoded.len() && encoded[k] is Some {
            seq![
                RowView {
                    y: (PIXEL_RECT_ROW_BASE + k) as u32,
                    runs: seq![RunView { x: 0, text: encoded[k]->0, style: plain_style() }],
                },
            ] + rest
        } else {
            rest
        }
    }
}

pub open spec fn encoded_view(encoded: Seq<Option<String>>) -> Seq<Option<Seq<char>>> {
    encoded.map_values(
        |text: Option<String>|
            match text {
                Some(t) => Some(t@),
                None => None,
            },
    )
}

/// What a text surface shows: its rows in order, then a row for each pixel
/// rectangle with a text encoding, over a black background, with the images
/// placed on it and the rows the last frame changed.
pub open spec fn surface_snapshot(
    target_id: RenderTargetId,
    surface: TextSurfaceView,
    encoded: Seq<Option<Seq<char>>>,
) -> SurfaceView {
    SurfaceView {
        target_id,
        latest_seq: surface.latest_seq,
        default_background: RgbColorDto { red: 0, green: 0, blue: 0 },
        rows: surface.rows.map_values(|entry: (u32, Seq<RunView>)| RowView { y: entry.0, runs: entry.1 }) + pixel_rect_rows(
            encoded,
            surface.pixel_rects.len() as int,
            0,
        ),
        video_surfaces: Seq::empty(),
        image_surface_count: surface.image_ids.len() as usize,
        dirty_rows: surface.latest_dirty_rows,
        cursor: None,
        ime_preedit: None,
    }
}

pub proof fn lemma_pixel_rect_rows_step(encoded: Seq<Option<Seq<char>>>, count: int, k: int)
    requires
        0 <= k < count,
    ensures
        pixel_rect_rows(encoded, count, k) == (if 0 <= k < encoded.len() && encoded[k] is Some {
            seq![
                RowView {
                    y: (PIXEL_RECT_ROW_BASE + k) as u32,
                    runs: seq![RunView { x: 0, text: encoded[k]->0, style: plain_style() }],
                },
            ]
        } else {
            Seq::<RowView>::empty()
        }) + pixel_rect_rows(encoded, count, k + 1),
{
    if !(0 <= k < encoded.len() && encoded[k] is Some) {
        assert(Seq::<RowView>::empty() + pixel_rect_rows(encoded, count, k + 1) =~= pixel_rect_rows(encoded, count, k + 1));
    }
}

fn copy_runs_to_snapshot(runs: &Vec<TextSurfaceRun>) -> (out: Vec<RenderSurfaceRunSnapshot>)
    ensures
        runs_view(out@) == text_runs_view(runs@),
{
    let mut out: Vec<RenderSurfaceRunSnapshot> = Vec::new();
    let mut k: usize = 0;
    while k < runs.len()
        invariant
            k <= runs@.len(),
            runs_view(out@) == text_runs_view(runs@).take(k as int),
        decreases runs@.len() - k,
    {
        let run = &runs[k];
        let ghost before = runs_view(out@);
        out.push(RenderSurfaceRunSnapshot { x: run.x, text: run.text.clone(), style: run.style });
        assert(runs_view(out@) =~= before.push(run@));
        assert(runs_view(out@) =~= text_runs_view(runs@).take(k as int + 1));
        k = k + 1;
    }
    assert(text_runs_view(runs@).take(runs@.len() as int) =~= text_runs_view(runs@));
    out
}

impl TextSurfaceFramePlanPresenter {
    /// The snapshot of `target`'s surface, if a frame was presented to it
    /// (see `surface_snapshot`); `encoded_pixel_rects[k]` is the text
    /// encoding of its `k`-th pixel rectangle, if it has one.
    pub fn surface_snapshot_of(
        &self,
        target_id: RenderTargetId,
        encoded_pixel_rects: &[Option<String>],
    ) -> (snapshot: Option<RenderSurfaceSnapshot>)
        requires
            surface_for(self@, target_id) matches Some(surface) ==> surface.pixel_rects.len() <= 0x1000 + 1,
        ensures
            match surface_for(self@, target_id) {
                Some(surface) => snapshot matches Some(s) && s@ == surface_snapshot(
                    target_id,
                    surface,
                    encoded_view(encoded_pixel_rects@),
                ),
                None => snapshot is None,
            },
    {
        let i = self.slot_of(target_id);
        if i >= self.surfaces.len() {
            return None;
        }
        let surface = &self.surfaces[i].1;
        assert(self@[i as int] == (self.surfaces@[i as int].0, surface@));
        let ghost view = surface@;
        let ghost encoded = encoded_view(encoded_pixel_rects@);
        let ghost text_rows = view.rows.map_values(|entry: (u32, Seq<RunView>)| RowView { y: entry.0, runs: entry.1 });
        let mut rows: Vec<RenderSurfaceRowSnapshot> = Vec::new();
        let mut k: usize = 0;
        while k < surface.rows.len()
            invariant
                view == surface@,
                text_rows == view.rows.map_values(|entry: (u32, Seq<RunView>)| RowView { y: entry.0, runs: entry.1 }),
                k <= surface.rows@.len(),
                rows@.map_values(|row: RenderSurfaceRowSnapshot| row@) == text_rows.take(k as int),
            decreases surface.rows@.len() - k,
        {
            let ghost before = rows@.map_values(|row: RenderSurfaceRowSnapshot| row@);
            let runs = copy_runs_to_snapshot(&surface.rows[k].1.runs);
            let row = RenderSurfaceRowSnapshot { y: surface.rows[k].0, runs };
            assert(view.rows[k as int] == (surface.rows@[k as int].0, surface.rows@[k as int].1@));
            assert(row@ == text_rows[k as int]);
            rows.push(row);
            assert(rows@.map_values(|row: RenderSurfaceRowSnapshot| row@) =~= before.push(text_rows[k as int]));
            assert(rows@.map_values(|row: RenderSurfaceRowSnapshot| row@) =~= text_rows.take(k as int + 1));
            k = k + 1;
        }
        assert(text_rows.take(surface.rows@.len() as int) =~= text_rows);
        let count = surface.pixel_rects.len();
        let mut index: usize = 0;
        while index < count
            invariant
                view == surface@,
                count == view.pixel_rects.len(),
                count <= 0x1000 + 1,
                encoded == encoded_view(encoded_pixel_rects@),
                index <= count,
                rows@.map_values(|row: RenderSurfaceRowSnapshot| row@) + pixel_rect_rows(encoded, count as int, index as int)
                    == text_rows + pixel_rect_rows(encoded, count as int, 0),
            decreases count - index,
        {
            proof {
                lemma_pixel_rect_rows_step(encoded, count as int, index as int);
            }
            let ghost before = rows@.map_values(|row: RenderSurfaceRowSnapshot| row@);
            if index < encoded_pixel_rects.len() {
                match &encoded_pixel_rects[index] {
                    Some(text) => {
                        let mut runs: Vec<RenderSurfaceRunSnapshot> = Vec::new();
                        runs.push(RenderSurfaceRunSnapshot { x: 0, text: text.clone(), style: TextStyleDto::plain() });
                        let row = RenderSurfaceRowSnapshot { y: PIXEL_RECT_ROW_BASE + index as u32, runs };
                        assert(encoded[index as int] == Some(text@));
                        assert(runs_view(row.runs@) =~= seq![RunView { x: 0, text: text@, style: plain_style() }]);
                        rows.push(row);
                        assert(rows@.map_values(|row: RenderSurfaceRowSnapshot| row@) =~= before.push(row@));
                        assert(before.push(row@) + pixel_rect_rows(encoded, count as int, index as int + 1) =~= before
                            + pixel_rect_rows(encoded, count as int, index as int));
                    },
                    None => {
                        assert(encoded[index as int] is None);
                    },
                }
            }
            index = index + 1;
        }
        assert(pixel_rect_rows(encoded, count as int, count as int) =~= Seq::<RowView>::empty());
        assert(rows@.map_values(|row: RenderSurfaceRowSnapshot| row@) =~= text_rows + pixel_rect_rows(
            encoded,
            count as int,
            0,
        ));
        let mut dirty: Vec<u32> = Vec::new();
        let mut d: usize = 0;
        while d < surface.latest_dirty_rows.len()
            invariant
                d <= surface.latest_dirty_rows@.len(),
                dirty@ == surface.latest_dirty_rows@.take(d as int),
            decreases surface.latest_dirty_rows@.len() - d,
        {
            dirty.push(surface.latest_dirty_rows[d]);
            assert(dirty@ =~= surface.latest_dirty_rows@.take(d as int + 1));
            d = d + 1;
        }
        assert(surface.latest_dirty_rows@.take(surface.latest_dirty_rows@.len() as int) =~= surface.latest_dirty_rows@);
        let snapshot = RenderSurfaceSnapshot {
            target_id,
            latest_seq: surface.latest_seq,
            default_background: RgbColorDto::new(0, 0, 0),
            rows,
            video_surfaces: Vec::new(),
            image_surface_count: surface.image_surface_ids.len(),
            dirty_rows: dirty,
            cursor: None,
            ime_preedit: None,
        };
        assert(snapshot@.video_surfaces =~= Seq::<crate::render_surface::VideoSurfaceView>::empty());
        Some(snapshot)
    }
}

// ---------------------------------------------------------------------------
// What presenting keeps.
// ---------------------------------------------------------------------------

proof fn lemma_surface_index_is_first(surfaces: Seq<(RenderTargetId, TextSurfaceView)>, target: RenderTargetId, i: int)
    requires
        -1 <= i < surfaces.len(),
        i >= 0 ==> surfaces[i].0 == target,
        forall|j: int| 0 <= j < surfaces.len() && (i < 0 || j < i) ==> (#[trigger] surfaces[j]).0 != target,
    ensures
        surface_index(surfaces, target) == i,
{
    lemma_surface_index(surfaces, target);
    let found = surface_index(surfaces, target);
    if found != i {
        if found < 0 {
            assert(surfaces[i].0 == target);
        } else if i < 0 || found < i {
            assert(surfaces[found].0 != target);
        } else {
            assert(surfaces[i].0 != target);
        }
    }
}

proof fn lemma_with_surface(
    surfaces: Seq<(RenderTargetId, TextSurfaceView)>,
    target: RenderTargetId,
    surface: TextSurfaceView,
    other: RenderTargetId,
)
    ensures
        surface_for(with_surface(surfaces, target, surface), target) == Some(surface),
        other != target ==> surface_for(with_surface(surfaces, target, surface), other) == surface_for(
            surfaces,
            other,
        ),
{
    lemma_surface_index(surfaces, target);
    lemma_surface_index(surfaces, other);
    let out = with_surface(surfaces, target, surface);
    let i = surface_index(surfaces, target);
    let o = surface_index(surfaces, other);
    if i >= 0 {
        lemma_surface_index_is_first(out, target, i);
    } else {
        assert forall|j: int| 0 <= j < out.len() && j < surfaces.len() implies (#[trigger] out[j]).0 != target by {
            assert(out[j] == surfaces[j]);
        }
        lemma_surface_index_is_first(out, target, surfaces.len() as int);
    }
    if other != target {
        assert forall|j: int| 0 <= j < out.len() && (o < 0 || j < o) implies (#[trigger] out[j]).0 != other by {
            if j < surfaces.len() && j != i {
                assert(out[j] == surfaces[j]);
            }
        }
        if o >= 0 {
            assert(o != i);
            assert(out[o] == surfaces[o]);
        }
        lemma_surface_index_is_first(out, other, o);
    }
}

/// Presenting a frame to one render target leaves the surface of every
/// other target as it was: each target's sequence is tracked on its own.
pub proof fn lemma_present_keeps_other_targets(
    surfaces: Seq<(RenderTargetId, TextSurfaceView)>,
    target: RenderTargetId,
    seq: SeqNo,
    commands: Seq<RenderCommandView>,
    loaded: Seq<bool>,
    other: RenderTargetId,
)
    requires
        other != target,
    ensures
        surface_for(after_present(surfaces, target, seq, commands, loaded), other) == surface_for(surfaces, other),
{
    if frame_is_newer(surfaces, target, seq) {
        let start = match surface_for(surfaces, target) {
            Some(surface) => surface,
            None => empty_surface(),
        };
        lemma_with_surface(surfaces, target, presented_surface(start, commands, loaded, seq), other);
    }
}

/// A frame whose sequence number is not above that of its target's last
/// frame is refused and changes nothing: duplicate and stale frames never
/// roll a surface back.
pub proof fn lemma_stale_frame_changes_nothing(
    surfaces: Seq<(RenderTargetId, TextSurfaceView)>,
    target: RenderTargetId,
    seq: SeqNo,
    commands: Seq<RenderCommandView>,
    loaded: Seq<bool>,
)
    requires
        surface_for(surfaces, target) matches Some(surface) && seq.0 <= surface.latest_seq.0,
    ensures
        !frame_is_newer(surfaces, target, seq),
        after_present(surfaces, target, seq, commands, loaded) == surfaces,
{
}

/// After a newer frame is presented, its target's surface carries the
/// frame's sequence number, so the target's sequence numbers only grow.
pub proof fn lemma_presented_frame_is_latest(
    surfaces: Seq<(RenderTargetId, TextSurfaceView)>,
    target: RenderTargetId,
    seq: SeqNo,
    commands: Seq<RenderCommandView>,
    loaded: Seq<bool>,
)
    requires
        frame_is_newer(surfaces, target, seq),
    ensures
        surface_for(after_present(surfaces, target, seq, commands, loaded), target) matches Some(surface)
            && surface.latest_seq == seq,
        forall|previous: TextSurfaceView|
            surface_for(surfaces, target) == Some(previous) ==> previous.latest_seq.0 < seq.0,
{
    let start = match surface_for(surfaces, target) {
        Some(surface) => surface,
        None => empty_surface(),
    };
    lemma_with_surface(surfaces, target, presented_surface(start, commands, loaded, seq), target);
}

} // verus!
