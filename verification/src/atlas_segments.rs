use vstd::prelude::*;
use crate::glyph_atlas_frame::{key_code, key_precedes, lemma_key_code_injective};
use crate::glyph_key::WgpuTerminalGlyphKey;
use crate::render_surface::{RenderSurfaceSnapshot, RowView, RunView, SurfaceView};
use crate::text_shaping::{
    SegmentView, TerminalTextSegment, cell_widths, cursor_fallback_segments, extended_graphemes_of, fallback_from,
    segments_view, terminal_text_segments_with_ligatures, text_segments,
};
use crate::colors::TextStyleDto;

verus! {

// ---------------------------------------------------------------------------
// The segments a frame shapes, one per glyph key, in key order.
// ---------------------------------------------------------------------------

/// Segments in strictly increasing key order.
pub open spec fn segment_keys_increasing(segments: Seq<SegmentView>) -> bool {
    forall|i: int, j: int|
        0 <= i < j < segments.len() ==> key_code((#[trigger] segments[i]).glyph_key) < key_code(
            (#[trigger] segments[j]).glyph_key,
        )
}

pub open spec fn has_segment_key(segments: Seq<SegmentView>, key: WgpuTerminalGlyphKey) -> bool {
    exists|i: int| 0 <= i < segments.len() && (#[trigger] segments[i]).glyph_key == key
}

/// The segments by glyph key.
pub open spec fn segments_by_key(segments: Seq<SegmentView>) -> Map<WgpuTerminalGlyphKey, SegmentView> {
    Map::new(
        |key: WgpuTerminalGlyphKey| has_segment_key(segments, key),
        |key: WgpuTerminalGlyphKey|
            segments[choose|i: int| 0 <= i < segments.len() && (#[trigger] segments[i]).glyph_key == key],
    )
}

/// A segment is added under its key unless the key already has one.
pub open spec fn add_if_new(
    by_key: Map<WgpuTerminalGlyphKey, SegmentView>,
    segment: SegmentView,
) -> Map<WgpuTerminalGlyphKey, SegmentView> {
    if by_key.contains_key(segment.glyph_key) {
        by_key
    } else {
        by_key.insert(segment.glyph_key, segment)
    }
}

/// Adds segments in order, the first for each key winning.
pub open spec fn add_first(
    by_key: Map<WgpuTerminalGlyphKey, SegmentView>,
    segments: Seq<SegmentView>,
) -> Map<WgpuTerminalGlyphKey, SegmentView>
    decreases segments.len(),
{
    if segments.len() == 0 {
        by_key
    } else {
        add_if_new(add_first(by_key, segments.drop_last()), segments.last())
    }
}

pub proof fn lemma_add_first_concat(
    by_key: Map<WgpuTerminalGlyphKey, SegmentView>,
    a: Seq<SegmentView>,
    b: Seq<SegmentView>,
)
    ensures
        add_first(by_key, a + b) == add_first(add_first(by_key, a), b),
    decreases b.len(),
{
    if b.len() == 0 {
        assert(a + b =~= a);
    } else {
        lemma_add_first_concat(by_key, a, b.drop_last());
        assert((a + b).drop_last() =~= a + b.drop_last());
    }
}

proof fn lemma_segments_by_key_at(segments: Seq<SegmentView>, i: int)
    requires
        segment_keys_increasing(segments),
        0 <= i < segments.len(),
    ensures
        segments_by_key(segments).contains_key(segments[i].glyph_key),
        segments_by_key(segments)[segments[i].glyph_key] == segments[i],
{
    let key = segments[i].glyph_key;
    assert(has_segment_key(segments, key));
    let j = choose|j: int| 0 <= j < segments.len() && (#[trigger] segments[j]).glyph_key == key;
    if j < i {
        assert(key_code(segments[j].glyph_key) < key_code(segments[i].glyph_key));
    } else if j > i {
        assert(key_code(segments[i].glyph_key) < key_code(segments[j].glyph_key));
    }
}

/// Adds a segment under its key, where it belongs in key order, unless the
/// key already has one.
fn insert_first(segments: &mut Vec<TerminalTextSegment>, segment: TerminalTextSegment)
    requires
        segment_keys_increasing(segments_view(old(segments)@)),
    ensures
        segment_keys_increasing(segments_view(final(segments)@)),
        segments_by_key(segments_view(final(segments)@)) == add_if_new(
            segments_by_key(segments_view(old(segments)@)),
            segment@,
        ),
{
    let ghost before = segments_view(segments@);
    let key = segment.glyph_key;
    let mut i: usize = 0;
    while i < segments.len() && key_precedes(segments[i].glyph_key, key)
        invariant
            i <= segments@.len(),
            before == segments_view(segments@),
            segment_keys_increasing(before),
            forall|j: int| 0 <= j < i ==> key_code((#[trigger] before[j]).glyph_key) < key_code(key),
        decreases segments@.len() - i,
    {
        assert(before[i as int].glyph_key == segments@[i as int].glyph_key);
        i = i + 1;
    }
    if i < segments.len() && segments[i].glyph_key == key {
        proof {
            assert(before[i as int].glyph_key == key);
            lemma_segments_by_key_at(before, i as int);
            assert(add_if_new(segments_by_key(before), segment@) == segments_by_key(before));
        }
        return;
    }
    proof {
        assert forall|j: int| i <= j < before.len() implies key_code(key) < key_code(
            (#[trigger] before[j]).glyph_key,
        ) by {
            assert(before[i as int].glyph_key == segments@[i as int].glyph_key);
            if key_code(before[i as int].glyph_key) == key_code(key) {
                lemma_key_code_injective(before[i as int].glyph_key, key);
            }
            if j > i {
                assert(key_code(before[i as int].glyph_key) < key_code(before[j].glyph_key));
            }
        }
    }
    segments.insert(i, segment);
    proof {
        let after = segments_view(segments@);
        assert(after =~= before.insert(i as int, segment@));
        assert forall|a: int, b: int| 0 <= a < b < after.len() implies key_code(
            (#[trigger] after[a]).glyph_key,
        ) < key_code((#[trigger] after[b]).glyph_key) by {
            if b < i {
                assert(after[a] == before[a] && after[b] == before[b]);
            } else if a < i && b == i {
                assert(after[a] == before[a]);
            } else if a < i {
                assert(after[a] == before[a] && after[b] == before[b - 1]);
            } else if a == i {
                assert(after[b] == before[b - 1]);
            } else {
                assert(after[a] == before[a - 1] && after[b] == before[b - 1]);
            }
        }
        let expected = add_if_new(segments_by_key(before), segment@);
        assert(!segments_by_key(before).contains_key(key)) by {
            if has_segment_key(before, key) {
                let m = choose|m: int| 0 <= m < before.len() && (#[trigger] before[m]).glyph_key == key;
                assert(key_code(before[m].glyph_key) == key_code(key));
            }
        }
        assert forall|k: WgpuTerminalGlyphKey| #[trigger] segments_by_key(after).contains_key(k)
            == expected.contains_key(k) && (expected.contains_key(k) ==> segments_by_key(after)[k]
            == expected[k]) by {
            if k == key {
                assert(after[i as int] == segment@);
                lemma_segments_by_key_at(after, i as int);
            } else if has_segment_key(before, k) {
                let m = choose|m: int| 0 <= m < before.len() && (#[trigger] before[m]).glyph_key == k;
                lemma_segments_by_key_at(before, m);
                let n = if m < i {
                    m
                } else {
                    m + 1
                };
                assert(after[n] == before[m]);
                lemma_segments_by_key_at(after, n);
            } else if has_segment_key(after, k) {
                let m = choose|m: int| 0 <= m < after.len() && (#[trigger] after[m]).glyph_key == k;
                if m < i {
                    assert(before[m] == after[m]);
                } else if m > i {
                    assert(before[m - 1] == after[m]);
                }
                assert(has_segment_key(before, k));
            }
        }
        assert(segments_by_key(after) =~= expected);
    }
}

/// What a segment adds to a frame's shaping: the one-character segments
/// that stand in for it under the cursor, then the segment itself.
pub open spec fn segment_entries(segment: SegmentView) -> Seq<SegmentView> {
    (if segment.shaped {
        fallback_from(
            extended_graphemes_of(segment.text),
            cell_widths(extended_graphemes_of(segment.text)),
            segment.glyph_key.bold,
            segment.glyph_key.italic,
        )
    } else {
        Seq::empty()
    }).push(segment)
}

/// The entries of a list of segments, in order.
pub open spec fn entries_of(segments: Seq<SegmentView>) -> Seq<SegmentView>
    decreases segments.len(),
{
    if segments.len() == 0 {
        Seq::empty()
    } else {
        entries_of(segments.drop_last()) + segment_entries(segments.last())
    }
}

/// The entries of a text in a style.
pub open spec fn text_entries(text: Seq<char>, style: TextStyleDto, ligatures: bool) -> Seq<SegmentView> {
    entries_of(text_segments(text, style.bold, style.italic, ligatures))
}

/// The entries of the first `k` runs.
pub open spec fn runs_entries(runs: Seq<RunView>, k: int, ligatures: bool) -> Seq<SegmentView>
    decreases k,
{
    if k <= 0 {
        Seq::empty()
    } else {
        runs_entries(runs, k - 1, ligatures) + text_entries(runs[k - 1].text, runs[k - 1].style, ligatures)
    }
}

/// The entries of the first `k` rows.
pub open spec fn rows_entries(rows: Seq<RowView>, k: int, ligatures: bool) -> Seq<SegmentView>
    decreases k,
{
    if k <= 0 {
        Seq::empty()
    } else {
        rows_entries(rows, k - 1, ligatures) + runs_entries(rows[k - 1].runs, rows[k - 1].runs.len() as int, ligatures)
    }
}

pub open spec fn plain_text_style() -> TextStyleDto {
    TextStyleDto { foreground: None, background: None, bold: false, italic: false, underline: false }
}

/// The entries of a surface: each run's segments in its style, then the text
/// being composed, plain.
pub open spec fn surface_entries(snapshot: SurfaceView, ligatures: bool) -> Seq<SegmentView> {
    rows_entries(snapshot.rows, snapshot.rows.len() as int, ligatures) + match snapshot.ime_preedit {
        Some(preedit) => text_entries(preedit.text, plain_text_style(), ligatures),
        None => Seq::empty(),
    }
}

fn copy_segment(segment: &TerminalTextSegment) -> (copy: TerminalTextSegment)
    ensures
        copy@ == segment@,
{
    TerminalTextSegment {
        text: segment.text.clone(),
        cell_width: segment.cell_width,
        glyph_key: segment.glyph_key,
        shaped: segment.shaped,
        ligature: segment.ligature,
    }
}

/// Adds a segment and the segments that stand in for it under the cursor,
/// each under its key unless the key already has one.
pub fn insert_text_segment(segments: &mut Vec<TerminalTextSegment>, segment: TerminalTextSegment)
    requires
        segment_keys_increasing(segments_view(old(segments)@)),
    ensures
        segment_keys_increasing(segments_view(final(segments)@)),
        segments_by_key(segments_view(final(segments)@)) == add_first(
            segments_by_key(segments_view(old(segments)@)),
            segment_entries(segment@),
        ),
{
    let ghost start = segments_by_key(segments_view(segments@));
    let fallbacks = cursor_fallback_segments(&segment);
    let ghost stand_ins = segments_view(fallbacks@);
    assert(stand_ins == segment_entries(segment@).drop_last()) by {
        if !segment.shaped {
            assert(stand_ins =~= Seq::<SegmentView>::empty());
        }
        assert(segment_entries(segment@).drop_last() =~= (if segment@.shaped {
            fallback_from(
                extended_graphemes_of(segment@.text),
                cell_widths(extended_graphemes_of(segment@.text)),
                segment@.glyph_key.bold,
                segment@.glyph_key.italic,
            )
        } else {
            Seq::<SegmentView>::empty()
        }));
    }
    let mut i: usize = 0;
    while i < fallbacks.len()
        invariant
            i <= fallbacks@.len(),
            stand_ins == segments_view(fallbacks@),
            segment_keys_increasing(segments_view(segments@)),
            segments_by_key(segments_view(segments@)) == add_first(start, stand_ins.subrange(0, i as int)),
        decreases fallbacks@.len() - i,
    {
        let fallback = copy_segment(&fallbacks[i]);
        insert_first(segments, fallback);
        assert(stand_ins.subrange(0, i as int + 1).drop_last() =~= stand_ins.subrange(0, i as int));
        i = i + 1;
    }
    assert(stand_ins.subrange(0, fallbacks@.len() as int) =~= stand_ins);
    insert_first(segments, segment);
    assert(segment_entries(segment@).drop_last() == stand_ins);
}

/// Adds the segments of a text in a style, in order.
fn insert_text_segments(
    segments: &mut Vec<TerminalTextSegment>,
    text: &str,
    style: TextStyleDto,
    ligatures: bool,
)
    requires
        segment_keys_increasing(segments_view(old(segments)@)),
    ensures
        segment_keys_increasing(segments_view(final(segments)@)),
        segments_by_key(segments_view(final(segments)@)) == add_first(
            segments_by_key(segments_view(old(segments)@)),
            text_entries(text@, style, ligatures),
        ),
{
    let ghost start = segments_by_key(segments_view(segments@));
    let shaped = terminal_text_segments_with_ligatures(text, style, ligatures);
    let ghost views = segments_view(shaped@);
    let mut s: usize = 0;
    while s < shaped.len()
        invariant
            s <= shaped@.len(),
            views == segments_view(shaped@),
            views == text_segments(text@, style.bold, style.italic, ligatures),
            segment_keys_increasing(segments_view(segments@)),
            segments_by_key(segments_view(segments@)) == add_first(start, entries_of(views.subrange(0, s as int))),
        decreases shaped@.len() - s,
    {
        let ghost done = entries_of(views.subrange(0, s as int));
        let segment = copy_segment(&shaped[s]);
        insert_text_segment(segments, segment);
        proof {
            lemma_add_first_concat(start, done, segment_entries(segment@));
            assert(views.subrange(0, s as int + 1).drop_last() =~= views.subrange(0, s as int));
            assert(views.subrange(0, s as int + 1).last() == segment@);
        }
        s = s + 1;
    }
    assert(views.subrange(0, shaped@.len() as int) =~= views);
}

/// The segments a surface shapes, one per glyph key in key order: each
/// segment of each run in the run's style, and of the text being composed,
/// plain, with the segments that stand in for shaped ones under the cursor;
/// the first segment for a key wins.
pub fn collect_text_segments(snapshot: &RenderSurfaceSnapshot, ligatures: bool) -> (segments: Vec<
    TerminalTextSegment,
>)
    ensures
        segment_keys_increasing(segments_view(segments@)),
        segments_by_key(segments_view(segments@)) == add_first(
            Map::empty(),
            surface_entries(snapshot@, ligatures),
        ),
{
    let mut segments: Vec<TerminalTextSegment> = Vec::new();
    let ghost rows = snapshot@.rows;
    assert(segments_by_key(segments_view(segments@)) =~= Map::<WgpuTerminalGlyphKey, SegmentView>::empty());
    let mut r: usize = 0;
    while r < snapshot.rows.len()
        invariant
            r <= snapshot.rows@.len(),
            rows == snapshot@.rows,
            segment_keys_increasing(segments_view(segments@)),
            segments_by_key(segments_view(segments@)) == add_first(
                Map::empty(),
                rows_entries(rows, r as int, ligatures),
            ),
        decreases snapshot.rows@.len() - r,
    {
        let row = &snapshot.rows[r];
        let ghost runs = rows[r as int].runs;
        let ghost before = rows_entries(rows, r as int, ligatures);
        assert(runs == row@.runs);
        let mut u: usize = 0;
        while u < row.runs.len()
            invariant
                u <= row.runs@.len(),
                runs == row@.runs,
                runs.len() == row.runs@.len(),
                segment_keys_increasing(segments_view(segments@)),
                segments_by_key(segments_view(segments@)) == add_first(
                    Map::empty(),
                    before + runs_entries(runs, u as int, ligatures),
                ),
            decreases row.runs@.len() - u,
        {
            let run = &row.runs[u];
            let ghost so_far = before + runs_entries(runs, u as int, ligatures);
            assert(runs[u as int] == run@);
            insert_text_segments(&mut segments, run.text.as_str(), run.style, ligatures);
            proof {
                lemma_add_first_concat(Map::empty(), so_far, text_entries(run.text@, run.style, ligatures));
                assert(before + runs_entries(runs, u as int + 1, ligatures) =~= so_far + text_entries(
                    run.text@,
                    run.style,
                    ligatures,
                ));
            }
            u = u + 1;
        }
        proof {
            assert(rows_entries(rows, r as int + 1, ligatures) =~= before + runs_entries(
                runs,
                runs.len() as int,
                ligatures,
            ));
        }
        r = r + 1;
    }
    let ghost body = rows_entries(rows, rows.len() as int, ligatures);
    match &snapshot.ime_preedit {
        Some(preedit) => {
            let style = TextStyleDto::plain();
            insert_text_segments(&mut segments, preedit.text.as_str(), style, ligatures);
            proof {
                lemma_add_first_concat(Map::empty(), body, text_entries(preedit.text@, style, ligatures));
            }
        },
        None => {
            assert(surface_entries(snapshot@, ligatures) =~= body);
        },
    }
    segments
}

} // verus!
