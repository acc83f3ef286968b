use vstd::prelude::*;
use std::collections::HashMap;
use crate::debug_glyph_atlas::{WgpuDebugGlyphAtlasBuilder, debug_atlas_height, is_debug_atlas_of};
use crate::font_metrics::{WgpuCrossfontStrikeoutMetrics, WgpuCrossfontUnderlineMetrics};
use crate::glyph_atlas::WgpuTerminalGlyphAtlas;
use crate::glyph_atlas_texture::{
    WgpuTerminalGlyphAtlasTextureFactory, WgpuTerminalGlyphAtlasUploadBytes, WgpuTerminalAtlasTextureFormat,
    rgba_texels,
};
use crate::glyph_key::{WgpuTerminalGlyphIdentity, WgpuTerminalGlyphKey};
use crate::ids::{RenderTargetId, SeqNo};
use crate::pipeline_specs::WgpuTerminalGlyphAtlasSourceKind;
use crate::render_surface::{RenderSurfaceRowSnapshot, RenderSurfaceRunSnapshot, RenderSurfaceSnapshot};

verus! {

// ---------------------------------------------------------------------------
// The order of glyph keys, and the set of glyphs a surface shows.
// ---------------------------------------------------------------------------

/// The place of a key in key order: characters before clusters, each by code
/// point or hash, then regular before bold, then upright before italic.
pub open spec fn key_code(key: WgpuTerminalGlyphKey) -> int {
    let identity = match key.identity {
        WgpuTerminalGlyphIdentity::Character(c) => c as int,
        WgpuTerminalGlyphIdentity::Cluster(id) => 0x1_0000_0000_0000_0000 + id as int,
    };
    (identity * 2 + (if key.bold {
        1int
    } else {
        0int
    })) * 2 + (if key.italic {
        1int
    } else {
        0int
    })
}

/// Keys in strictly increasing key order.
pub open spec fn keys_increasing(keys: Seq<WgpuTerminalGlyphKey>) -> bool {
    forall|i: int, j: int| 0 <= i < j < keys.len() ==> key_code(#[trigger] keys[i]) < key_code(#[trigger] keys[j])
}

/// Different keys have different places in key order.
pub proof fn lemma_key_code_injective(a: WgpuTerminalGlyphKey, b: WgpuTerminalGlyphKey)
    requires
        key_code(a) == key_code(b),
    ensures
        a == b,
{
    match (a.identity, b.identity) {
        (WgpuTerminalGlyphIdentity::Character(c), WgpuTerminalGlyphIdentity::Character(d)) => {
            assert(c as int == d as int);
        },
        (WgpuTerminalGlyphIdentity::Character(c), WgpuTerminalGlyphIdentity::Cluster(id)) => {
            assert((c as int) < 0x110000);
        },
        (WgpuTerminalGlyphIdentity::Cluster(id), WgpuTerminalGlyphIdentity::Character(c)) => {
            assert((c as int) < 0x110000);
        },
        (WgpuTerminalGlyphIdentity::Cluster(x), WgpuTerminalGlyphIdentity::Cluster(y)) => {},
    }
}

/// Whether `a` comes before `b` in key order.
pub fn key_precedes(a: WgpuTerminalGlyphKey, b: WgpuTerminalGlyphKey) -> (r: bool)
    ensures
        r == (key_code(a) < key_code(b)),
{
    let identity_order: u8 = match (a.identity, b.identity) {
        (WgpuTerminalGlyphIdentity::Character(c), WgpuTerminalGlyphIdentity::Character(d)) => {
            if c < d {
                0
            } else if c == d {
                1
            } else {
                2
            }
        },
        (WgpuTerminalGlyphIdentity::Character(c), WgpuTerminalGlyphIdentity::Cluster(_)) => {
            assert((c as int) < 0x110000);
            0
        },
        (WgpuTerminalGlyphIdentity::Cluster(_), WgpuTerminalGlyphIdentity::Character(d)) => {
            assert((d as int) < 0x110000);
            2
        },
        (WgpuTerminalGlyphIdentity::Cluster(x), WgpuTerminalGlyphIdentity::Cluster(y)) => {
            if x < y {
                0
            } else if x == y {
                1
            } else {
                2
            }
        },
    };
    if identity_order == 0 {
        true
    } else if identity_order == 2 {
        false
    } else if a.bold != b.bold {
        !a.bold
    } else {
        !a.italic && b.italic
    }
}

/// Two increasing key lists with the same keys are the same list.
pub proof fn lemma_keys_increasing_unique(a: Seq<WgpuTerminalGlyphKey>, b: Seq<WgpuTerminalGlyphKey>)
    requires
        keys_increasing(a),
        keys_increasing(b),
        forall|k: WgpuTerminalGlyphKey| a.contains(k) <==> b.contains(k),
    ensures
        a == b,
    decreases a.len(),
{
    if a.len() == 0 {
        if b.len() > 0 {
            assert(b.contains(b[0]));
        }
        assert(a =~= b);
    } else if b.len() == 0 {
        assert(a.contains(a[0]));
    } else {
        let x = a.last();
        let y = b.last();
        assert(a.contains(x));
        assert(b.contains(y));
        let i = choose|i: int| 0 <= i < a.len() && a[i] == y;
        let j = choose|j: int| 0 <= j < b.len() && b[j] == x;
        if key_code(x) != key_code(y) {
            if i < a.len() - 1 {
                assert(key_code(a[i]) < key_code(x));
            }
            if j < b.len() - 1 {
                assert(key_code(b[j]) < key_code(y));
            }
        }
        lemma_key_code_injective(x, y);
        let a2 = a.drop_last();
        let b2 = b.drop_last();
        assert forall|k: WgpuTerminalGlyphKey| a2.contains(k) <==> b2.contains(k) by {
            if a2.contains(k) {
                let m = choose|m: int| 0 <= m < a2.len() && a2[m] == k;
                assert(key_code(a[m]) < key_code(x));
                assert(b.contains(k));
                let n = choose|n: int| 0 <= n < b.len() && b[n] == k;
                assert(n != b.len() - 1);
                assert(b2[n] == k);
            }
            if b2.contains(k) {
                let m = choose|m: int| 0 <= m < b2.len() && b2[m] == k;
                assert(key_code(b[m]) < key_code(y));
                assert(a.contains(k));
                let n = choose|n: int| 0 <= n < a.len() && a[n] == k;
                assert(n != a.len() - 1);
                assert(a2[n] == k);
            }
        }
        lemma_keys_increasing_unique(a2, b2);
        assert(a =~= a2.push(x));
        assert(b =~= b2.push(y));
    }
}

/// Adds `key` to an increasing list of keys, where it belongs.
pub fn insert_glyph_key(keys: &mut Vec<WgpuTerminalGlyphKey>, key: WgpuTerminalGlyphKey)
    requires
        keys_increasing(old(keys)@),
    ensures
        keys_increasing(final(keys)@),
        forall|k: WgpuTerminalGlyphKey| final(keys)@.contains(k) <==> (old(keys)@.contains(k) || k == key),
{
    let mut i: usize = 0;
    while i < keys.len() && key_precedes(keys[i], key)
        invariant
            i <= keys@.len(),
            keys_increasing(keys@),
            forall|j: int| 0 <= j < i ==> key_code(keys@[j]) < key_code(key),
        decreases keys@.len() - i,
    {
        i = i + 1;
    }
    if i < keys.len() && keys[i] == key {
        assert(keys@[i as int] == key);
        return;
    }
    assert forall|j: int| i <= j < keys@.len() implies key_code(key) < key_code(keys@[j]) by {
        if key_code(keys@[i as int]) == key_code(key) {
            lemma_key_code_injective(keys@[i as int], key);
        }
        assert(key_code(keys@[i as int]) <= key_code(keys@[j]));
    }
    let ghost before = keys@;
    keys.insert(i, key);
    proof {
        let after = keys@;
        assert forall|a: int, b: int| 0 <= a < b < after.len() implies key_code(#[trigger] after[a])
            < key_code(#[trigger] after[b]) by {
            if b < i {
            } else if a < i && b == i {
            } else if a < i {
                assert(after[b] == before[b - 1]);
                if b - 1 > i {
                    assert(key_code(before[i as int]) < key_code(before[b - 1]));
                }
            } else if a == i {
                assert(after[b] == before[b - 1]);
                if b - 1 > i {
                    assert(key_code(before[i as int]) < key_code(before[b - 1]));
                }
            } else {
                assert(after[a] == before[a - 1] && after[b] == before[b - 1]);
            }
        }
        assert forall|k: WgpuTerminalGlyphKey| after.contains(k) <==> (before.contains(k) || k == key) by {
            if after.contains(k) {
                let m = choose|m: int| 0 <= m < after.len() && after[m] == k;
                if m < i {
                    assert(before[m] == k);
                } else if m > i {
                    assert(before[m - 1] == k);
                }
            }
            if before.contains(k) {
                let m = choose|m: int| 0 <= m < before.len() && before[m] == k;
                if m < i {
                    assert(after[m] == k);
                } else {
                    assert(after[m + 1] == k);
                }
            }
            if k == key {
                assert(after[i as int] == k);
            }
        }
    }
}

/// The key of character `c` in the given style.
pub open spec fn styled_key(c: char, bold: bool, italic: bool) -> WgpuTerminalGlyphKey {
    WgpuTerminalGlyphKey { identity: WgpuTerminalGlyphIdentity::Character(c), bold, italic }
}

/// Text in a style shows the key of each of its characters in that style.
pub open spec fn text_shows(text: Seq<char>, bold: bool, italic: bool, key: WgpuTerminalGlyphKey) -> bool {
    exists|i: int| 0 <= i < text.len() && key == styled_key(#[trigger] text[i], bold, italic)
}

/// A row shows the keys of its runs' characters in their styles.
pub open spec fn row_shows(row: RenderSurfaceRowSnapshot, key: WgpuTerminalGlyphKey) -> bool {
    exists|u: int|
        0 <= u < row.runs@.len() && text_shows(
            (#[trigger] row.runs@[u]).text@,
            row.runs@[u].style.bold,
            row.runs@[u].style.italic,
            key,
        )
}

/// A surface shows the keys of its rows, and the regular keys of the
/// characters being composed.
pub open spec fn surface_shows(snapshot: RenderSurfaceSnapshot, key: WgpuTerminalGlyphKey) -> bool {
    ||| exists|r: int| 0 <= r < snapshot.rows@.len() && row_shows(#[trigger] snapshot.rows@[r], key)
    ||| (snapshot.ime_preedit matches Some(preedit) && text_shows(preedit.text@, false, false, key))
}

/// The keys a surface shows, in key order.
pub open spec fn surface_glyphs(snapshot: RenderSurfaceSnapshot) -> Seq<WgpuTerminalGlyphKey> {
    choose|keys: Seq<WgpuTerminalGlyphKey>|
        keys_increasing(keys) && forall|k: WgpuTerminalGlyphKey| keys.contains(k) <==> surface_shows(snapshot, k)
}

/// One more character of a text shows one more key.
proof fn lemma_text_shows_extend(text: Seq<char>, i: int, bold: bool, italic: bool, k: WgpuTerminalGlyphKey)
    requires
        0 <= i < text.len(),
    ensures
        text_shows(text.subrange(0, i + 1), bold, italic, k) <==> (text_shows(
            text.subrange(0, i),
            bold,
            italic,
            k,
        ) || k == styled_key(text[i], bold, italic)),
{
    let longer = text.subrange(0, i + 1);
    let shorter = text.subrange(0, i);
    if text_shows(longer, bold, italic, k) {
        let m = choose|m: int| 0 <= m < longer.len() && k == styled_key(#[trigger] longer[m], bold, italic);
        if m < i {
            assert(shorter[m] == longer[m]);
        }
    }
    if text_shows(shorter, bold, italic, k) {
        let m = choose|m: int| 0 <= m < shorter.len() && k == styled_key(#[trigger] shorter[m], bold, italic);
        assert(longer[m] == shorter[m]);
    }
    if k == styled_key(text[i], bold, italic) {
        assert(longer[i] == text[i]);
    }
}

/// Adds the keys of `text` in the given style.
fn add_text_glyphs(keys: &mut Vec<WgpuTerminalGlyphKey>, text: &str, bold: bool, italic: bool)
    requires
        keys_increasing(old(keys)@),
    ensures
        keys_increasing(final(keys)@),
        forall|k: WgpuTerminalGlyphKey|
            final(keys)@.contains(k) <==> (old(keys)@.contains(k) || text_shows(text@, bold, italic, k)),
{
    let ghost start = keys@;
    let n = text.unicode_len();
    let mut i: usize = 0;
    while i < n
        invariant
            n == text@.len(),
            i <= n,
            keys_increasing(keys@),
            forall|k: WgpuTerminalGlyphKey|
                keys@.contains(k) <==> (start.contains(k) || text_shows(
                    text@.subrange(0, i as int),
                    bold,
                    italic,
                    k,
                )),
        decreases n - i,
    {
        let c = text.get_char(i);
        let ghost before = keys@;
        assert(forall|k: WgpuTerminalGlyphKey| before.contains(k) <==> (start.contains(k) || text_shows(
            text@.subrange(0, i as int),
            bold,
            italic,
            k,
        )));
        insert_glyph_key(keys, WgpuTerminalGlyphKey::styled(c, bold, italic));
        proof {
            assert forall|k: WgpuTerminalGlyphKey|
                keys@.contains(k) <==> (start.contains(k) || text_shows(
                    text@.subrange(0, i as int + 1),
                    bold,
                    italic,
                    k,
                )) by {
                lemma_text_shows_extend(text@, i as int, bold, italic, k);
                assert(keys@.contains(k) <==> (before.contains(k) || k == styled_key(c, bold, italic)));
                assert(before.contains(k) <==> (start.contains(k) || text_shows(
                    text@.subrange(0, i as int),
                    bold,
                    italic,
                    k,
                )));
                assert(text@[i as int] == c);
            }
        }
        i = i + 1;
    }
    assert(text@.subrange(0, n as int) =~= text@);
}

/// The runs `runs[0..u]` show a key.
pub open spec fn runs_show(runs: Seq<RenderSurfaceRunSnapshot>, u: int, key: WgpuTerminalGlyphKey) -> bool {
    exists|v: int|
        0 <= v < u && text_shows(
            (#[trigger] runs[v]).text@,
            runs[v].style.bold,
            runs[v].style.italic,
            key,
        )
}

/// Adds the keys of a row's runs.
fn add_row_glyphs(keys: &mut Vec<WgpuTerminalGlyphKey>, row: &RenderSurfaceRowSnapshot)
    requires
        keys_increasing(old(keys)@),
    ensures
        keys_increasing(final(keys)@),
        forall|k: WgpuTerminalGlyphKey| final(keys)@.contains(k) <==> (old(keys)@.contains(k) || row_shows(*row, k)),
{
    let ghost start = keys@;
    let mut u: usize = 0;
    while u < row.runs.len()
        invariant
            u <= row.runs@.len(),
            keys_increasing(keys@),
            forall|k: WgpuTerminalGlyphKey|
                keys@.contains(k) <==> (start.contains(k) || runs_show(row.runs@, u as int, k)),
        decreases row.runs@.len() - u,
    {
        let run = &row.runs[u];
        let ghost before = keys@;
        assert(forall|k: WgpuTerminalGlyphKey|
            before.contains(k) <==> (start.contains(k) || runs_show(row.runs@, u as int, k)));
        add_text_glyphs(keys, run.text.as_str(), run.style.bold, run.style.italic);
        proof {
            assert forall|k: WgpuTerminalGlyphKey|
                keys@.contains(k) <==> (start.contains(k) || runs_show(row.runs@, u as int + 1, k)) by {
                assert(row.runs@[u as int] == *run);
                assert(keys@.contains(k) <==> (before.contains(k) || text_shows(
                    run.text@,
                    run.style.bold,
                    run.style.italic,
                    k,
                )));
                if runs_show(row.runs@, u as int + 1, k) {
                    let v = choose|v: int|
                        0 <= v < u + 1 && text_shows(
                            (#[trigger] row.runs@[v]).text@,
                            row.runs@[v].style.bold,
                            row.runs@[v].style.italic,
                            k,
                        );
                    if v < u {
                        assert(runs_show(row.runs@, u as int, k));
                    }
                }
                if runs_show(row.runs@, u as int, k) {
                    let v = choose|v: int|
                        0 <= v < u && text_shows(
                            (#[trigger] row.runs@[v]).text@,
                            row.runs@[v].style.bold,
                            row.runs@[v].style.italic,
                            k,
                        );
                    assert(runs_show(row.runs@, u as int + 1, k));
                }
                if text_shows(run.text@, run.style.bold, run.style.italic, k) {
                    assert(runs_show(row.runs@, u as int + 1, k));
                }
            }
        }
        u = u + 1;
    }
}

/// The keys a surface shows, in key order: each character of each run in the
/// run's style, and each character being composed, regular.
pub fn collect_glyphs(snapshot: &RenderSurfaceSnapshot) -> (keys: Vec<WgpuTerminalGlyphKey>)
    ensures
        keys@ == surface_glyphs(*snapshot),
        keys_increasing(keys@),
        forall|k: WgpuTerminalGlyphKey| keys@.contains(k) <==> surface_shows(*snapshot, k),
{
    let mut keys: Vec<WgpuTerminalGlyphKey> = Vec::new();
    let mut r: usize = 0;
    while r < snapshot.rows.len()
        invariant
            r <= snapshot.rows@.len(),
            keys_increasing(keys@),
            forall|k: WgpuTerminalGlyphKey|
                keys@.contains(k) <==> exists|q: int| 0 <= q < r && row_shows(#[trigger] snapshot.rows@[q], k),
        decreases snapshot.rows@.len() - r,
    {
        let row = &snapshot.rows[r];
        add_row_glyphs(&mut keys, row);
        proof {
            assert forall|k: WgpuTerminalGlyphKey|
                keys@.contains(k) <==> exists|q: int|
                    0 <= q < r + 1 && row_shows(#[trigger] snapshot.rows@[q], k) by {
                if row_shows(*row, k) {
                    assert(snapshot.rows@[r as int] == *row);
                }
            }
        }
        r = r + 1;
    }
    if let Some(preedit) = &snapshot.ime_preedit {
        add_text_glyphs(&mut keys, preedit.text.as_str(), false, false);
    }
    proof {
        let chosen = surface_glyphs(*snapshot);
        assert(exists|s: Seq<WgpuTerminalGlyphKey>|
            keys_increasing(s) && forall|k: WgpuTerminalGlyphKey| s.contains(k) <==> surface_shows(*snapshot, k)) by {
            assert(keys_increasing(keys@) && forall|k: WgpuTerminalGlyphKey|
                keys@.contains(k) <==> surface_shows(*snapshot, k));
        }
        lemma_keys_increasing_unique(keys@, chosen);
    }
    keys
}

// ---------------------------------------------------------------------------
// Glyph atlas frames and the per-target atlas cache.
// ---------------------------------------------------------------------------

/// How many runs the rows hold.
pub open spec fn total_runs(rows: Seq<RenderSurfaceRowSnapshot>) -> int
    decreases rows.len(),
{
    if rows.len() == 0 {
        0
    } else {
        total_runs(rows.drop_last()) + rows.last().runs@.len()
    }
}

/// How many characters the runs hold.
pub open spec fn run_chars(runs: Seq<RenderSurfaceRunSnapshot>) -> int
    decreases runs.len(),
{
    if runs.len() == 0 {
        0
    } else {
        run_chars(runs.drop_last()) + runs.last().text@.len()
    }
}

/// How many characters the rows' runs hold.
pub open spec fn total_chars(rows: Seq<RenderSurfaceRowSnapshot>) -> int
    decreases rows.len(),
{
    if rows.len() == 0 {
        0
    } else {
        total_chars(rows.drop_last()) + run_chars(rows.last().runs@)
    }
}

proof fn lemma_total_runs_prefix(rows: Seq<RenderSurfaceRowSnapshot>, r: int)
    requires
        0 <= r <= rows.len(),
    ensures
        0 <= total_runs(rows.subrange(0, r)) <= total_runs(rows),
    decreases rows.len(),
{
    if r < rows.len() {
        lemma_total_runs_prefix(rows.drop_last(), r);
        assert(rows.drop_last().subrange(0, r) =~= rows.subrange(0, r));
    } else {
        assert(rows.subrange(0, r) =~= rows);
    }
    if r == rows.len() {
        lemma_total_runs_nonneg(rows);
    }
}

proof fn lemma_total_runs_nonneg(rows: Seq<RenderSurfaceRowSnapshot>)
    ensures
        total_runs(rows) >= 0,
    decreases rows.len(),
{
    if rows.len() > 0 {
        lemma_total_runs_nonneg(rows.drop_last());
    }
}

proof fn lemma_run_chars_prefix(runs: Seq<RenderSurfaceRunSnapshot>, u: int)
    requires
        0 <= u <= runs.len(),
    ensures
        0 <= run_chars(runs.subrange(0, u)) <= run_chars(runs),
    decreases runs.len(),
{
    lemma_run_chars_nonneg(runs.subrange(0, u));
    if u < runs.len() {
        lemma_run_chars_prefix(runs.drop_last(), u);
        assert(runs.drop_last().subrange(0, u) =~= runs.subrange(0, u));
        lemma_run_chars_nonneg(runs.drop_last());
    } else {
        assert(runs.subrange(0, u) =~= runs);
    }
}

proof fn lemma_run_chars_nonneg(runs: Seq<RenderSurfaceRunSnapshot>)
    ensures
        run_chars(runs) >= 0,
    decreases runs.len(),
{
    if runs.len() > 0 {
        lemma_run_chars_nonneg(runs.drop_last());
    }
}

proof fn lemma_total_chars_prefix(rows: Seq<RenderSurfaceRowSnapshot>, r: int)
    requires
        0 <= r <= rows.len(),
    ensures
        0 <= total_chars(rows.subrange(0, r)) <= total_chars(rows),
    decreases rows.len(),
{
    lemma_total_chars_nonneg(rows.subrange(0, r));
    if r < rows.len() {
        lemma_total_chars_prefix(rows.drop_last(), r);
        assert(rows.drop_last().subrange(0, r) =~= rows.subrange(0, r));
        lemma_run_chars_nonneg(rows.last().runs@);
    } else {
        assert(rows.subrange(0, r) =~= rows);
    }
}

proof fn lemma_total_chars_nonneg(rows: Seq<RenderSurfaceRowSnapshot>)
    ensures
        total_chars(rows) >= 0,
    decreases rows.len(),
{
    if rows.len() > 0 {
        lemma_total_chars_nonneg(rows.drop_last());
        lemma_run_chars_nonneg(rows.last().runs@);
    }
}

/// Counts the runs and the characters of a surface's rows.
fn count_runs_and_chars(rows: &Vec<RenderSurfaceRowSnapshot>) -> (counts: (usize, usize))
    requires
        total_runs(rows@) <= usize::MAX,
        total_chars(rows@) <= usize::MAX,
    ensures
        counts.0 == total_runs(rows@),
        counts.1 == total_chars(rows@),
{
    let mut run_count: usize = 0;
    let mut char_count: usize = 0;
    let mut r: usize = 0;
    while r < rows.len()
        invariant
            r <= rows@.len(),
            total_runs(rows@) <= usize::MAX,
            total_chars(rows@) <= usize::MAX,
            run_count == total_runs(rows@.subrange(0, r as int)),
            char_count == total_chars(rows@.subrange(0, r as int)),
        decreases rows@.len() - r,
    {
        let row = &rows[r];
        proof {
            assert(rows@.subrange(0, r as int + 1).drop_last() =~= rows@.subrange(0, r as int));
            assert(rows@.subrange(0, r as int + 1).last() == *row);
            lemma_total_runs_prefix(rows@, r as int + 1);
            lemma_total_chars_prefix(rows@, r as int + 1);
        }
        run_count = run_count + row.runs.len();
        let mut u: usize = 0;
        let ghost base = char_count;
        while u < row.runs.len()
            invariant
                u <= row.runs@.len(),
                char_count == base + run_chars(row.runs@.subrange(0, u as int)),
                base + run_chars(row.runs@) <= usize::MAX,
            decreases row.runs@.len() - u,
        {
            proof {
                assert(row.runs@.subrange(0, u as int + 1).drop_last() =~= row.runs@.subrange(0, u as int));
                lemma_run_chars_prefix(row.runs@, u as int + 1);
            }
            char_count = char_count + row.runs[u].text.as_str().unicode_len();
            u = u + 1;
        }
        assert(row.runs@.subrange(0, row.runs@.len() as int) =~= row.runs@);
        r = r + 1;
    }
    assert(rows@.subrange(0, rows@.len() as int) =~= rows@);
    (run_count, char_count)
}

/// The glyph atlas of one frame of one render target, with what it takes
/// to upload it.
#[derive(Debug, Clone, PartialEq, Eq)]
pub struct WgpuTerminalGlyphAtlasFrame {
    pub target_id: RenderTargetId,
    pub seq: SeqNo,
    pub atlas: WgpuTerminalGlyphAtlas,
    pub upload_bytes: Option<WgpuTerminalGlyphAtlasUploadBytes>,
    pub run_count: usize,
    pub char_count: usize,
    pub source: WgpuTerminalGlyphAtlasSourceKind,
    pub cache_hit: bool,
}

impl WgpuTerminalGlyphAtlasFrame {
    /// There are atlas bytes to upload.
    pub fn has_upload_work(&self) -> (r: bool)
        ensures
            r == (self.upload_bytes matches Some(upload) && !(upload.width_px == 0 || upload.height_px
                == 0 || upload.pixels@.len() == 0)),
    {
        match &self.upload_bytes {
            Some(upload) => !upload.is_empty(),
            None => false,
        }
    }

    pub fn glyph_count(&self) -> (r: usize)
        ensures
            r == self.atlas.entries@.len(),
    {
        self.atlas.entries.len()
    }

    pub fn atlas_width_px(&self) -> (r: u32)
        ensures
            r == self.atlas.width_px,
    {
        self.atlas.width_px
    }

    pub fn atlas_height_px(&self) -> (r: u32)
        ensures
            r == self.atlas.height_px,
    {
        self.atlas.height_px
    }

    /// How many bytes the upload holds; none without an upload.
    pub fn upload_byte_len(&self) -> (r: usize)
        ensures
            r == match self.upload_bytes {
                Some(upload) => upload.pixels@.len(),
                None => 0,
            },
    {
        match &self.upload_bytes {
            Some(upload) => upload.byte_len(),
            None => 0,
        }
    }
}

/// Where a frame's glyph bitmaps come from.
#[derive(Debug, Clone)]
pub enum WgpuTerminalGlyphAtlasSource {
    Debug5x7(WgpuDebugGlyphAtlasBuilder),
}

impl WgpuTerminalGlyphAtlasSource {
    pub fn kind(&self) -> (kind: WgpuTerminalGlyphAtlasSourceKind)
        ensures
            kind == WgpuTerminalGlyphAtlasSourceKind::Debug5x7,
    {
        match self {
            WgpuTerminalGlyphAtlasSource::Debug5x7(_) => WgpuTerminalGlyphAtlasSourceKind::Debug5x7,
        }
    }

    /// The debug font has no ligatures.
    pub fn ligatures(&self) -> (r: bool)
        ensures
            !r,
    {
        match self {
            WgpuTerminalGlyphAtlasSource::Debug5x7(_) => false,
        }
    }

    /// The debug font gives no underline metrics.
    pub fn underline_metrics(&self) -> (r: Option<WgpuCrossfontUnderlineMetrics>)
        ensures
            r is None,
    {
        match self {
            WgpuTerminalGlyphAtlasSource::Debug5x7(_) => None,
        }
    }

    /// The debug font gives no strikeout metrics.
    pub fn strikeout_metrics(&self) -> (r: Option<WgpuCrossfontStrikeoutMetrics>)
        ensures
            r is None,
    {
        match self {
            WgpuTerminalGlyphAtlasSource::Debug5x7(_) => None,
        }
    }

    pub fn build_for_glyphs(&self, glyphs: &[WgpuTerminalGlyphKey]) -> (atlas: WgpuTerminalGlyphAtlas)
        requires
            97 * debug_atlas_height(glyphs@.len() as int) <= u32::MAX,
        ensures
            is_debug_atlas_of(atlas, glyphs@),
    {
        match self {
            WgpuTerminalGlyphAtlasSource::Debug5x7(builder) => builder.build_for_glyphs(glyphs),
        }
    }
}

/// The atlas last built for a render target, with the glyphs it was built for.
#[derive(Debug)]
struct WgpuTerminalGlyphAtlasCacheEntry {
    source: WgpuTerminalGlyphAtlasSourceKind,
    glyphs: Vec<WgpuTerminalGlyphKey>,
    atlas: WgpuTerminalGlyphAtlas,
}

/// Whether two glyph lists are the same.
fn same_glyphs(a: &Vec<WgpuTerminalGlyphKey>, b: &Vec<WgpuTerminalGlyphKey>) -> (r: bool)
    ensures
        r == (a@ == b@),
{
    if a.len() != b.len() {
        return false;
    }
    let mut i: usize = 0;
    while i < a.len()
        invariant
            a@.len() == b@.len(),
            i <= a@.len(),
            forall|j: int| 0 <= j < i ==> a@[j] == b@[j],
        decreases a@.len() - i,
    {
        if a[i] != b[i] {
            return false;
        }
        i = i + 1;
    }
    assert(a@ =~= b@);
    true
}

/// Builds glyph atlas frames from surface snapshots, and keeps the last atlas
/// of each render target to reuse while its glyphs stay the same.
pub struct WgpuTerminalGlyphAtlasFrameBuilder {
    source: WgpuTerminalGlyphAtlasSource,
    texture_factory: WgpuTerminalGlyphAtlasTextureFactory,
    cache: HashMap<u64, WgpuTerminalGlyphAtlasCacheEntry>,
    history: Ghost<Seq<AtlasCacheOp>>,
}

/// The bytes the texture factory uploads for an atlas.
pub open spec fn upload_of(atlas: WgpuTerminalGlyphAtlas, upload: Option<WgpuTerminalGlyphAtlasUploadBytes>) -> bool {
    if atlas.width_px == 0 || atlas.height_px == 0 || atlas.pixels@.len() == 0 {
        upload is None
    } else {
        &&& upload is Some
        &&& upload->0.width_px == atlas.width_px
        &&& upload->0.height_px == atlas.height_px
        &&& upload->0.pixels@ == rgba_texels(atlas.pixels@, atlas.width_px * atlas.height_px)
        &&& upload->0.format == WgpuTerminalAtlasTextureFormat::Rgba8UnormSrgb
    }
}

impl WgpuTerminalGlyphAtlasFrameBuilder {
    /// The glyph list each render target's cached atlas was built for.
    pub closed spec fn cached_glyphs(&self) -> Map<u64, Seq<WgpuTerminalGlyphKey>> {
        self.cache@.map_values(|entry: WgpuTerminalGlyphAtlasCacheEntry| entry.glyphs@)
    }

    /// The builds and removals made on the builder since it was created.
    pub closed spec fn history(&self) -> Seq<AtlasCacheOp> {
        self.history@
    }

    /// Each cached atlas is the debug atlas of the glyphs it was built for,
    /// and the cache holds what the history of calls leaves in it.
    pub closed spec fn well_formed(&self) -> bool {
        &&& self.cached_glyphs() == cache_after(self.history@)
        &&& forall|target: u64|
            #[trigger] self.cache@.contains_key(target) ==> {
                &&& self.cache@[target].source == WgpuTerminalGlyphAtlasSourceKind::Debug5x7
                &&& is_debug_atlas_of(self.cache@[target].atlas, self.cache@[target].glyphs@)
            }
    }

    /// A builder with the debug font and nothing cached.
    pub fn new() -> (builder: Self)
        ensures
            builder.well_formed(),
            builder.cached_glyphs() == Map::<u64, Seq<WgpuTerminalGlyphKey>>::empty(),
            builder.history() == Seq::<AtlasCacheOp>::empty(),
    {
        Self::debug_5x7()
    }

    /// A builder with the debug font and nothing cached.
    pub fn debug_5x7() -> (builder: Self)
        ensures
            builder.well_formed(),
            builder.cached_glyphs() == Map::<u64, Seq<WgpuTerminalGlyphKey>>::empty(),
            builder.history() == Seq::<AtlasCacheOp>::empty(),
    {
        let builder = WgpuTerminalGlyphAtlasFrameBuilder {
            source: WgpuTerminalGlyphAtlasSource::Debug5x7(WgpuDebugGlyphAtlasBuilder::new()),
            texture_factory: WgpuTerminalGlyphAtlasTextureFactory::new(),
            cache: HashMap::new(),
            history: Ghost(Seq::empty()),
        };
        assert(builder.cached_glyphs() =~= Map::<u64, Seq<WgpuTerminalGlyphKey>>::empty());
        builder
    }

    pub fn source_kind(&self) -> (kind: WgpuTerminalGlyphAtlasSourceKind)
        ensures
            kind == WgpuTerminalGlyphAtlasSourceKind::Debug5x7,
    {
        self.source.kind()
    }

    pub fn ligatures(&self) -> (r: bool)
        ensures
            !r,
    {
        self.source.ligatures()
    }

    pub fn underline_metrics(&self) -> (r: Option<WgpuCrossfontUnderlineMetrics>)
        ensures
            r is None,
    {
        self.source.underline_metrics()
    }

    pub fn strikeout_metrics(&self) -> (r: Option<WgpuCrossfontStrikeoutMetrics>)
        ensures
            r is None,
    {
        self.source.strikeout_metrics()
    }

    /// Forgets the atlas cached for a render target; says whether there was one.
    pub fn remove_render_target(&mut self, target_id: RenderTargetId) -> (removed: bool)
        requires
            old(self).well_formed(),
        ensures
            final(self).well_formed(),
            removed == old(self).cached_glyphs().contains_key(target_id.0),
            final(self).cached_glyphs() == old(self).cached_glyphs().remove(target_id.0),
            final(self).history() == old(self).history().push(AtlasCacheOp::Remove(target_id)),
    {
        broadcast use vstd::std_specs::hash::group_hash_axioms;

        let removed = self.cache.remove(&target_id.0).is_some();
        assert(self.cached_glyphs() =~= old(self).cached_glyphs().remove(target_id.0));
        proof {
            lemma_cache_after_remove(old(self).history(), target_id);
        }
        self.history = Ghost(old(self).history().push(AtlasCacheOp::Remove(target_id)));
        removed
    }

    /// The glyph atlas frame of a surface: the debug atlas of the glyphs it
    /// shows, in key order, reused from the cache when the target's last atlas
    /// was built for the same glyphs, with its upload bytes and the surface's
    /// run and character counts.
    pub fn build(&mut self, surface_snapshot: &RenderSurfaceSnapshot) -> (frame: WgpuTerminalGlyphAtlasFrame)
        requires
            old(self).well_formed(),
            388 * debug_atlas_height(surface_glyphs(*surface_snapshot).len() as int) <= u32::MAX,
            total_runs(surface_snapshot.rows@) <= usize::MAX,
            total_chars(surface_snapshot.rows@) <= usize::MAX,
        ensures
            final(self).well_formed(),
            frame.target_id == surface_snapshot.target_id,
            frame.seq == surface_snapshot.latest_seq,
            frame.source == WgpuTerminalGlyphAtlasSourceKind::Debug5x7,
            frame.run_count == total_runs(surface_snapshot.rows@),
            frame.char_count == total_chars(surface_snapshot.rows@),
            is_debug_atlas_of(frame.atlas, surface_glyphs(*surface_snapshot)),
            upload_of(frame.atlas, frame.upload_bytes),
            frame.cache_hit == (old(self).cached_glyphs().contains_key(surface_snapshot.target_id.0)
                && old(self).cached_glyphs()[surface_snapshot.target_id.0] == surface_glyphs(
                *surface_snapshot,
            )),
            final(self).cached_glyphs() == old(self).cached_glyphs().insert(
                surface_snapshot.target_id.0,
                surface_glyphs(*surface_snapshot),
            ),
            final(self).history() == old(self).history().push(AtlasCacheOp::Build(*surface_snapshot)),
            frame.cache_hit == (last_live_build(old(self).history(), surface_snapshot.target_id.0) matches Some(
                previous,
            ) && surface_glyphs(previous) == surface_glyphs(*surface_snapshot)),
    {
        proof {
            lemma_cache_hit_follows_history(old(self).history(), *surface_snapshot);
        }
        broadcast use vstd::std_specs::hash::group_hash_axioms;

        let (run_count, char_count) = count_runs_and_chars(&surface_snapshot.rows);
        let glyphs = collect_glyphs(surface_snapshot);
        let target = surface_snapshot.target_id.0;
        let kind = self.source.kind();
        let mut hit: Option<WgpuTerminalGlyphAtlas> = None;
        match self.cache.get(&target) {
            Some(entry) => {
                if entry.source == kind && same_glyphs(&entry.glyphs, &glyphs) {
                    hit = Some(entry.atlas.duplicate());
                }
            },
            None => {},
        }
        let cache_hit = hit.is_some();
        let atlas = match hit {
            Some(atlas) => {
                assert(self.cache@.contains_key(target));
                assert(self.cached_glyphs().insert(target, glyphs@) =~= self.cached_glyphs());
                atlas
            },
            None => {
                let atlas = self.source.build_for_glyphs(glyphs.as_slice());
                let entry = WgpuTerminalGlyphAtlasCacheEntry {
                    source: kind,
                    glyphs: glyphs,
                    atlas: atlas.duplicate(),
                };
                let ghost before = self.cached_glyphs();
                self.cache.insert(target, entry);
                assert(self.cached_glyphs() =~= before.insert(target, surface_glyphs(*surface_snapshot)));
                atlas
            },
        };
        self.history = Ghost(old(self).history().push(AtlasCacheOp::Build(*surface_snapshot)));
        let upload_bytes = self.texture_factory.build_upload_bytes(&atlas);
        WgpuTerminalGlyphAtlasFrame {
            target_id: surface_snapshot.target_id,
            seq: surface_snapshot.latest_seq,
            atlas,
            upload_bytes,
            run_count,
            char_count,
            source: kind,
            cache_hit,
        }
    }
}

impl Default for WgpuTerminalGlyphAtlasFrameBuilder {
    fn default() -> (builder: Self)
        ensures
            builder.well_formed(),
            builder.cached_glyphs() == Map::<u64, Seq<WgpuTerminalGlyphKey>>::empty(),
            builder.history() == Seq::<AtlasCacheOp>::empty(),
    {
        Self::new()
    }
}

// ---------------------------------------------------------------------------
// The atlas cache over a history of builds and removals.
// ---------------------------------------------------------------------------

/// One call on a glyph atlas frame builder: a build for a surface, or the
/// removal of a render target.
pub enum AtlasCacheOp {
    Build(RenderSurfaceSnapshot),
    Remove(RenderTargetId),
}

/// The glyph lists cached after a history of calls on a new builder, as
/// `build` and `remove_render_target` state them one by one.
pub open spec fn cache_after(ops: Seq<AtlasCacheOp>) -> Map<u64, Seq<WgpuTerminalGlyphKey>>
    decreases ops.len(),
{
    if ops.len() == 0 {
        Map::empty()
    } else {
        let before = cache_after(ops.drop_last());
        match ops.last() {
            AtlasCacheOp::Build(s) => before.insert(s.target_id.0, surface_glyphs(s)),
            AtlasCacheOp::Remove(t) => before.remove(t.0),
        }
    }
}

/// The surface of the last build for `target` in a history, unless a
/// removal of `target` came after it.
pub open spec fn last_live_build(ops: Seq<AtlasCacheOp>, target: u64) -> Option<RenderSurfaceSnapshot>
    decreases ops.len(),
{
    if ops.len() == 0 {
        None
    } else {
        match ops.last() {
            AtlasCacheOp::Build(s) => if s.target_id.0 == target {
                Some(s)
            } else {
                last_live_build(ops.drop_last(), target)
            },
            AtlasCacheOp::Remove(t) => if t.0 == target {
                None
            } else {
                last_live_build(ops.drop_last(), target)
            },
        }
    }
}

proof fn lemma_cache_after_remove(ops: Seq<AtlasCacheOp>, t: RenderTargetId)
    ensures
        cache_after(ops.push(AtlasCacheOp::Remove(t))) == cache_after(ops).remove(t.0),
{
    assert(ops.push(AtlasCacheOp::Remove(t)).drop_last() =~= ops);
}

/// What the cache holds for a target after a history of calls: the glyphs
/// of its last build, unless it was removed after that; nothing otherwise.
pub proof fn lemma_cache_follows_history(ops: Seq<AtlasCacheOp>, target: u64)
    ensures
        cache_after(ops).contains_key(target) == last_live_build(ops, target) is Some,
        last_live_build(ops, target) matches Some(s) ==> cache_after(ops)[target] == surface_glyphs(s),
    decreases ops.len(),
{
    if ops.len() > 0 {
        lemma_cache_follows_history(ops.drop_last(), target);
    }
}

/// A build of surface `s` after a history of calls on a new builder reuses
/// the cached atlas exactly when the last build for the same target, not
/// removed since, showed the same glyphs; removing a target invalidates
/// only that target's entry. (The left side is the `cache_hit` that `build`
/// states, given that the builder's `cached_glyphs()` is `cache_after(ops)`,
/// which `new`, `build` and `remove_render_target` keep.)
pub proof fn lemma_cache_hit_follows_history(ops: Seq<AtlasCacheOp>, s: RenderSurfaceSnapshot)
    ensures
        (cache_after(ops).contains_key(s.target_id.0) && cache_after(ops)[s.target_id.0] == surface_glyphs(s))
            == (last_live_build(ops, s.target_id.0) matches Some(p) && surface_glyphs(p) == surface_glyphs(s)),
        cache_after(ops.push(AtlasCacheOp::Build(s))) == cache_after(ops).insert(s.target_id.0, surface_glyphs(s)),
        forall|t: RenderTargetId|
            cache_after(ops.push(AtlasCacheOp::Remove(t))) == #[trigger] cache_after(ops).remove(t.0),
{
    lemma_cache_follows_history(ops, s.target_id.0);
    assert(ops.push(AtlasCacheOp::Build(s)).drop_last() =~= ops);
    assert forall|t: RenderTargetId|
        cache_after(ops.push(AtlasCacheOp::Remove(t))) == #[trigger] cache_after(ops).remove(t.0) by {
        assert(ops.push(AtlasCacheOp::Remove(t)).drop_last() =~= ops);
    }
}

} // verus!
