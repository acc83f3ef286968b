use vstd::prelude::*;
use unicode_normalization::UnicodeNormalization;
use unicode_segmentation::UnicodeSegmentation;
use unicode_width::UnicodeWidthStr;

use crate::colors::TextStyleDto;
use crate::glyph_key::{WgpuTerminalGlyphIdentity, WgpuTerminalGlyphKey};

verus! {

/// FNV-1a offset basis.
pub const FNV_OFFSET_BASIS: u64 = 0xcbf2_9ce4_8422_2325;

/// FNV-1a prime.
pub const FNV_PRIME: u64 = 0x0000_0100_0000_01b3;

/// A run of terminal text drawn with one glyph: a single character, or a
/// shaped cluster (a grapheme, a word of a joining script, or a ligature).
#[derive(Debug, Clone, PartialEq, Eq)]
pub struct TerminalTextSegment {
    pub text: String,
    pub cell_width: u32,
    pub glyph_key: WgpuTerminalGlyphKey,
    pub shaped: bool,
    pub ligature: bool,
}

/// A segment seen as plain values.
pub struct SegmentView {
    pub text: Seq<char>,
    pub cell_width: u32,
    pub glyph_key: WgpuTerminalGlyphKey,
    pub shaped: bool,
    pub ligature: bool,
}

impl View for TerminalTextSegment {
    type V = SegmentView;

    open spec fn view(&self) -> SegmentView {
        SegmentView {
            text: self.text@,
            cell_width: self.cell_width,
            glyph_key: self.glyph_key,
            shaped: self.shaped,
            ligature: self.ligature,
        }
    }
}

/// The segments of a list, each seen as plain values.
pub open spec fn segments_view(segments: Seq<TerminalTextSegment>) -> Seq<SegmentView> {
    segments.map_values(|s: TerminalTextSegment| s@)
}

/// The texts of a list of segments, one after the other.
pub open spec fn segment_texts(segments: Seq<SegmentView>) -> Seq<char> {
    segments.map_values(|s: SegmentView| s.text).flatten()
}

// ---------------------------------------------------------------------------
// Outside functions, named.
// ---------------------------------------------------------------------------

/// The canonical composition (Unicode NFC) of a character sequence.
pub uninterp spec fn nfc_of(text: Seq<char>) -> Seq<char>;

/// The extended grapheme clusters of a character sequence, in order.
pub uninterp spec fn extended_graphemes_of(text: Seq<char>) -> Seq<Seq<char>>;

/// The display width of a string in terminal columns.
pub uninterp spec fn display_width_of(text: Seq<char>) -> usize;

/// Calls unicode-normalization's `UnicodeNormalization::nfc` and collects
/// the composed characters into a string; the result is named `nfc_of`.
#[verifier::external_body]
fn nfc_normalize(text: &str) -> (normalized: String)
    ensures
        normalized@ == nfc_of(text@),
{
    text.nfc().collect()
}

/// Calls unicode-segmentation's `UnicodeSegmentation::graphemes` with extended
/// clusters and copies each cluster into a string. The result is named
/// `extended_graphemes_of`; as the crate's iterator hands out consecutive,
/// non-empty slices from the start of the string to its end, the clusters
/// are non-empty and, one after the other, spell the text.
#[verifier::external_body]
fn extended_graphemes(text: &str) -> (graphemes: Vec<String>)
    ensures
        tokens_of(graphemes@) == extended_graphemes_of(text@),
        tokens_of(graphemes@).flatten() == text@,
        forall|k: int| 0 <= k < graphemes@.len() ==> #[trigger] graphemes@[k]@.len() > 0,
{
    let mut out: Vec<String> = Vec::new();
    for grapheme in text.graphemes(true) {
        out.push(grapheme.to_owned());
    }
    out
}

/// The display width of a character in terminal columns, when it has one.
pub uninterp spec fn char_display_width_of(c: char) -> Option<usize>;

/// Calls unicode-width's `UnicodeWidthChar::width`; the result is named
/// `char_display_width_of`. As the crate's lookup shows, printable ASCII
/// (U+0020 to U+007E) is one column wide, and the C0 and C1 control codes
/// (below U+0020, and U+007F to U+009F) have no width.
#[verifier::external_body]
fn char_display_width(c: char) -> (width: Option<usize>)
    ensures
        width == char_display_width_of(c),
        0x20 <= (c as u32) < 0x7f ==> width == Some(1usize),
        (c as u32) < 0x20 || (0x7f <= (c as u32) < 0xa0) ==> width is None,
{
    unicode_width::UnicodeWidthChar::width(c)
}

/// The cell width of a character: its display width, at most two; a
/// character without one (a control character) takes no cell.
pub open spec fn char_cell_width(c: char) -> u32 {
    match char_display_width_of(c) {
        Some(w) => if w < 2 {
            w as u32
        } else {
            2
        },
        None => 0,
    }
}

/// The cell width of a character: its display width, at most two, and none
/// for a character without one.
pub fn terminal_char_cell_width(c: char) -> (width: u32)
    ensures
        width == char_cell_width(c),
        0x20 <= (c as u32) < 0x7f ==> width == 1,
        (c as u32) < 0x20 || (0x7f <= (c as u32) < 0xa0) ==> width == 0,
{
    match char_display_width(c) {
        Some(w) => if w < 2 {
            w as u32
        } else {
            2
        },
        None => 0,
    }
}

/// Calls unicode-width's `UnicodeWidthStr::width`; the result is named
/// `display_width_of`.
#[verifier::external_body]
fn str_display_width(text: &str) -> (width: usize)
    ensures
        width == display_width_of(text@),
{
    UnicodeWidthStr::width(text)
}

// ---------------------------------------------------------------------------
// The segmentation rules over a list of tokens (graphemes, or single
// characters of ASCII text) with the cell width of each token.
// ---------------------------------------------------------------------------

/// The token list of a list of strings.
pub open spec fn tokens_of(strings: Seq<String>) -> Seq<Seq<char>> {
    strings.map_values(|s: String| s@)
}

/// FNV-1a over a byte string.
pub open spec fn fnv1a(bytes: Seq<u8>) -> u64
    decreases bytes.len(),
{
    if bytes.len() == 0 {
        FNV_OFFSET_BASIS
    } else {
        vstd::wrapping::u64_specs::wrapping_mul(
            fnv1a(bytes.drop_last()) ^ (bytes.last() as u64),
            FNV_PRIME,
        )
    }
}

/// The hash that names the shaped cluster of `text`: FNV-1a over its UTF-8 bytes.
pub open spec fn text_hash(text: Seq<char>) -> u64 {
    fnv1a(vstd::utf8::encode_utf8(text))
}

/// The ASCII punctuation that programming ligatures are made of.
pub open spec fn code_operator_char(c: char) -> bool {
    c == '!' || c == '#' || c == '$' || c == '%' || c == '&' || c == '*' || c == '+' || c == '-'
        || c == '.' || c == '/' || c == ':' || c == '<' || c == '=' || c == '>' || c == '?'
        || c == '@' || c == '\\' || c == '^' || c == '|' || c == '~'
}

/// Characters of scripts whose letters join or reorder, and so need
/// contextual shaping: Arabic, Syriac, Thaana, NKo, Mandaic, the Indic
/// scripts, Thai, Lao, Tibetan, Myanmar, Khmer, Javanese, Myanmar Extended-A
/// and the Arabic presentation forms.
pub open spec fn contextual_script_char(c: char) -> bool {
    let v = c as int;
    (0x0600 <= v <= 0x06ff) || (0x0700 <= v <= 0x074f) || (0x0750 <= v <= 0x077f) || (0x0780
        <= v <= 0x07bf) || (0x0840 <= v <= 0x085f) || (0x08a0 <= v <= 0x08ff) || (0x0900 <= v
        <= 0x0dff) || (0x0e00 <= v <= 0x0fff) || (0x1000 <= v <= 0x109f) || (0x1780 <= v
        <= 0x17ff) || (0xa980 <= v <= 0xa9df) || (0xaa60 <= v <= 0xaa7f) || (0xfb50 <= v
        <= 0xfdff) || (0xfe70 <= v <= 0xfeff)
}

/// A token of one code-operator character.
pub open spec fn operator_token(t: Seq<char>) -> bool {
    t.len() == 1 && code_operator_char(t[0])
}

/// A token with a character of a joining script.
pub open spec fn contextual_token(t: Seq<char>) -> bool {
    exists|k: int| 0 <= k < t.len() && contextual_script_char(#[trigger] t[k])
}

/// Where the run of operator tokens that goes on at `j` ends.
pub open spec fn operator_run_end(toks: Seq<Seq<char>>, j: int) -> int
    decreases toks.len() - j,
{
    if 0 <= j < toks.len() && operator_token(toks[j]) {
        operator_run_end(toks, j + 1)
    } else {
        j
    }
}

/// Where the run of joining-script tokens that goes on at `j` ends.
pub open spec fn contextual_run_end(toks: Seq<Seq<char>>, j: int) -> int
    decreases toks.len() - j,
{
    if 0 <= j < toks.len() && contextual_token(toks[j]) {
        contextual_run_end(toks, j + 1)
    } else {
        j
    }
}

/// Two neighbouring tokens of `toks[i..j]` differ.
pub open spec fn run_has_change(toks: Seq<Seq<char>>, i: int, j: int) -> bool {
    exists|k: int| i <= k && k + 1 < j && #[trigger] toks[k] != toks[k + 1]
}

/// An operator run is shaped when it has two to four tokens, or more tokens
/// that are not all the same.
pub open spec fn shapes_operator_run(toks: Seq<Seq<char>>, i: int, j: int) -> bool {
    j - i > 1 && (j - i <= 4 || run_has_change(toks, i, j))
}

/// The tokens from `i` on spell `word`, one character per token.
pub open spec fn spells(toks: Seq<Seq<char>>, i: int, word: Seq<char>) -> bool {
    0 <= i && i + word.len() <= toks.len() && forall|k: int|
        0 <= k < word.len() ==> toks[i + k] == seq![#[trigger] word[k]]
}

/// The length of the standard typographic ligature (ffi, ffl, www, ff, fi, fl,
/// tried in that order) that starts at `i`, if any.
pub open spec fn standard_ligature_at(toks: Seq<Seq<char>>, i: int) -> Option<int> {
    if spells(toks, i, seq!['f', 'f', 'i']) {
        Some(3)
    } else if spells(toks, i, seq!['f', 'f', 'l']) {
        Some(3)
    } else if spells(toks, i, seq!['w', 'w', 'w']) {
        Some(3)
    } else if spells(toks, i, seq!['f', 'f']) {
        Some(2)
    } else if spells(toks, i, seq!['f', 'i']) {
        Some(2)
    } else if spells(toks, i, seq!['f', 'l']) {
        Some(2)
    } else {
        None
    }
}

/// The sum of cell widths, wrapping at 2^32 as `u32` addition does.
pub open spec fn width_total(widths: Seq<u32>) -> u32
    decreases widths.len(),
{
    if widths.len() == 0 {
        0
    } else {
        vstd::wrapping::u32_specs::wrapping_add(width_total(widths.drop_last()), widths.last())
    }
}

/// A shaped segment: its glyph is the cluster named by the hash of its text.
pub open spec fn shaped_segment(
    text: Seq<char>,
    cell_width: u32,
    bold: bool,
    italic: bool,
    ligature: bool,
) -> SegmentView {
    SegmentView {
        text,
        cell_width,
        glyph_key: WgpuTerminalGlyphKey {
            identity: WgpuTerminalGlyphIdentity::Cluster(text_hash(text)),
            bold,
            italic,
        },
        shaped: true,
        ligature,
    }
}

/// A plain segment of one character, drawn with that character's glyph.
pub open spec fn plain_segment(c: char, cell_width: u32, bold: bool, italic: bool) -> SegmentView {
    SegmentView {
        text: seq![c],
        cell_width,
        glyph_key: WgpuTerminalGlyphKey {
            identity: WgpuTerminalGlyphIdentity::Character(c),
            bold,
            italic,
        },
        shaped: false,
        ligature: false,
    }
}

/// The shaped segment of the tokens `toks[i..j]`.
pub open spec fn run_segment(
    toks: Seq<Seq<char>>,
    widths: Seq<u32>,
    i: int,
    j: int,
    bold: bool,
    italic: bool,
    ligature: bool,
) -> SegmentView {
    shaped_segment(
        toks.subrange(i, j).flatten(),
        width_total(widths.subrange(i, j)),
        bold,
        italic,
        ligature,
    )
}

/// One plain segment of width one per operator token of `toks[i..j]`.
pub open spec fn unit_plain_run(
    toks: Seq<Seq<char>>,
    i: int,
    j: int,
    bold: bool,
    italic: bool,
) -> Seq<SegmentView> {
    Seq::new((j - i) as nat, |k: int| plain_segment(toks[i + k][0], 1, bold, italic))
}

/// The operator run that starts at `i` ends within the tokens, after `i`.
pub proof fn lemma_operator_run_end(toks: Seq<Seq<char>>, j: int)
    requires
        0 <= j <= toks.len(),
    ensures
        j <= operator_run_end(toks, j) <= toks.len(),
        forall|k: int| j <= k < operator_run_end(toks, j) ==> operator_token(#[trigger] toks[k]),
        operator_run_end(toks, j) < toks.len() ==> !operator_token(
            toks[operator_run_end(toks, j)],
        ),
    decreases toks.len() - j,
{
    if j < toks.len() && operator_token(toks[j]) {
        lemma_operator_run_end(toks, j + 1);
    }
}

/// The joining-script run that starts at `j` ends within the tokens.
pub proof fn lemma_contextual_run_end(toks: Seq<Seq<char>>, j: int)
    requires
        0 <= j <= toks.len(),
    ensures
        j <= contextual_run_end(toks, j) <= toks.len(),
        forall|k: int|
            j <= k < contextual_run_end(toks, j) ==> contextual_token(#[trigger] toks[k]),
        contextual_run_end(toks, j) < toks.len() ==> !contextual_token(
            toks[contextual_run_end(toks, j)],
        ),
    decreases toks.len() - j,
{
    if j < toks.len() && contextual_token(toks[j]) {
        lemma_contextual_run_end(toks, j + 1);
    }
}

/// The segments of the tokens from `i` on: a run of joining-script tokens is
/// one shaped segment; with ligatures on, a run of two to four operator
/// tokens, or a longer run that is not one repeated character, is one shaped
/// ligature, a longer repeated run is one plain segment per character, and a
/// standard ligature is one shaped ligature; a token of several characters is
/// one shaped segment; a token of one character is one plain segment.
#[verifier::opaque]
pub open spec fn segments_from(
    toks: Seq<Seq<char>>,
    widths: Seq<u32>,
    i: int,
    bold: bool,
    italic: bool,
    ligatures: bool,
) -> Seq<SegmentView>
    decreases toks.len() - i,
{
    if i < 0 || i >= toks.len() {
        Seq::empty()
    } else if contextual_token(toks[i]) {
        proof {
            lemma_contextual_run_end(toks, i + 1);
        }
        let j = contextual_run_end(toks, i + 1);
        seq![run_segment(toks, widths, i, j, bold, italic, false)] + segments_from(
            toks,
            widths,
            j,
            bold,
            italic,
            ligatures,
        )
    } else {
        proof {
            lemma_operator_run_end(toks, i + 1);
        }
        let j = operator_run_end(toks, i + 1);
        if ligatures && operator_token(toks[i]) && shapes_operator_run(toks, i, j) {
            seq![run_segment(toks, widths, i, j, bold, italic, true)] + segments_from(
                toks,
                widths,
                j,
                bold,
                italic,
                ligatures,
            )
        } else if ligatures && operator_token(toks[i]) && j - i > 4 {
            unit_plain_run(toks, i, j, bold, italic) + segments_from(
                toks,
                widths,
                j,
                bold,
                italic,
                ligatures,
            )
        } else if ligatures && standard_ligature_at(toks, i) is Some {
            let n = standard_ligature_at(toks, i)->0;
            seq![run_segment(toks, widths, i, i + n, bold, italic, true)] + segments_from(
                toks,
                widths,
                i + n,
                bold,
                italic,
                ligatures,
            )
        } else if toks[i].len() > 1 {
            seq![run_segment(toks, widths, i, i + 1, bold, italic, false)] + segments_from(
                toks,
                widths,
                i + 1,
                bold,
                italic,
                ligatures,
            )
        } else if toks[i].len() == 1 {
            seq![plain_segment(toks[i][0], widths[i], bold, italic)] + segments_from(
                toks,
                widths,
                i + 1,
                bold,
                italic,
                ligatures,
            )
        } else {
            segments_from(toks, widths, i + 1, bold, italic, ligatures)
        }
    }
}

/// The cell width of a grapheme: its display width, at most two.
pub open spec fn grapheme_cell_width(grapheme: Seq<char>) -> u32 {
    if display_width_of(grapheme) < 2 {
        display_width_of(grapheme) as u32
    } else {
        2
    }
}

/// The cell width of each token.
pub open spec fn cell_widths(toks: Seq<Seq<char>>) -> Seq<u32> {
    Seq::new(toks.len(), |k: int| grapheme_cell_width(toks[k]))
}

/// Text made only of printable ASCII characters and spaces.
pub open spec fn printable_ascii(text: Seq<char>) -> bool {
    forall|k: int| 0 <= k < text.len() ==> 0x20 <= (#[trigger] text[k] as int) <= 0x7e
}

/// Each character of `text` as a token of its own.
pub open spec fn char_tokens(text: Seq<char>) -> Seq<Seq<char>> {
    Seq::new(text.len(), |k: int| seq![text[k]])
}

/// A cell width of one for each of `n` tokens.
pub open spec fn unit_widths(n: nat) -> Seq<u32> {
    Seq::new(n, |k: int| 1u32)
}

/// The segments of a line of terminal text: printable ASCII text is
/// segmented character by character, each one cell wide; other text is
/// composed (NFC), split into extended grapheme clusters and segmented by
/// cluster, each as wide as its display width, at most two cells.
pub open spec fn text_segments(text: Seq<char>, bold: bool, italic: bool, ligatures: bool) -> Seq<
    SegmentView,
> {
    if printable_ascii(text) {
        segments_from(char_tokens(text), unit_widths(text.len()), 0, bold, italic, ligatures)
    } else {
        let graphemes = extended_graphemes_of(nfc_of(text));
        segments_from(graphemes, cell_widths(graphemes), 0, bold, italic, ligatures)
    }
}

/// The one-character segments that stand in for a shaped segment under the
/// cursor: for each grapheme of non-zero width, its first character.
pub open spec fn fallback_from(
    toks: Seq<Seq<char>>,
    widths: Seq<u32>,
    bold: bool,
    italic: bool,
) -> Seq<SegmentView>
    decreases toks.len(),
{
    if toks.len() == 0 {
        Seq::empty()
    } else {
        let rest = fallback_from(toks.drop_last(), widths.drop_last(), bold, italic);
        if toks.last().len() > 0 && widths[toks.len() - 1] > 0 {
            rest.push(plain_segment(toks.last()[0], widths[toks.len() - 1], bold, italic))
        } else {
            rest
        }
    }
}

/// No segments before the start or past the end of the tokens.
pub proof fn lemma_segments_from_outside(
    toks: Seq<Seq<char>>,
    widths: Seq<u32>,
    i: int,
    bold: bool,
    italic: bool,
    ligatures: bool,
)
    requires
        i < 0 || i >= toks.len(),
    ensures
        segments_from(toks, widths, i, bold, italic, ligatures) == Seq::<SegmentView>::empty(),
{
    reveal(segments_from);
}

/// A joining-script token starts one shaped segment over its whole run.
pub proof fn lemma_segments_from_contextual(
    toks: Seq<Seq<char>>,
    widths: Seq<u32>,
    i: int,
    bold: bool,
    italic: bool,
    ligatures: bool,
)
    requires
        0 <= i < toks.len(),
        contextual_token(toks[i]),
    ensures
        segments_from(toks, widths, i, bold, italic, ligatures) == seq![
            run_segment(toks, widths, i, contextual_run_end(toks, i + 1), bold, italic, false),
        ] + segments_from(toks, widths, contextual_run_end(toks, i + 1), bold, italic, ligatures),
{
    reveal(segments_from);
}

/// With ligatures on, an operator run that is shaped is one ligature.
pub proof fn lemma_segments_from_operator_ligature(
    toks: Seq<Seq<char>>,
    widths: Seq<u32>,
    i: int,
    bold: bool,
    italic: bool,
)
    requires
        0 <= i < toks.len(),
        !contextual_token(toks[i]),
        operator_token(toks[i]),
        shapes_operator_run(toks, i, operator_run_end(toks, i + 1)),
    ensures
        segments_from(toks, widths, i, bold, italic, true) == seq![
            run_segment(toks, widths, i, operator_run_end(toks, i + 1), bold, italic, true),
        ] + segments_from(toks, widths, operator_run_end(toks, i + 1), bold, italic, true),
{
    reveal(segments_from);
}

/// With ligatures on, a long run of one repeated operator is one plain
/// segment per character.
pub proof fn lemma_segments_from_operator_fill(
    toks: Seq<Seq<char>>,
    widths: Seq<u32>,
    i: int,
    bold: bool,
    italic: bool,
)
    requires
        0 <= i < toks.len(),
        !contextual_token(toks[i]),
        operator_token(toks[i]),
        !shapes_operator_run(toks, i, operator_run_end(toks, i + 1)),
        operator_run_end(toks, i + 1) - i > 4,
    ensures
        segments_from(toks, widths, i, bold, italic, true) == unit_plain_run(
            toks,
            i,
            operator_run_end(toks, i + 1),
            bold,
            italic,
        ) + segments_from(toks, widths, operator_run_end(toks, i + 1), bold, italic, true),
{
    reveal(segments_from);
}

/// Neither a joining-script token nor a shaped or filled operator run.
pub open spec fn starts_no_run(toks: Seq<Seq<char>>, i: int, ligatures: bool) -> bool {
    &&& !contextual_token(toks[i])
    &&& !(ligatures && operator_token(toks[i]) && (shapes_operator_run(
        toks,
        i,
        operator_run_end(toks, i + 1),
    ) || operator_run_end(toks, i + 1) - i > 4))
}

/// With ligatures on, a standard ligature is one shaped ligature.
pub proof fn lemma_segments_from_standard_ligature(
    toks: Seq<Seq<char>>,
    widths: Seq<u32>,
    i: int,
    n: int,
    bold: bool,
    italic: bool,
)
    requires
        0 <= i < toks.len(),
        starts_no_run(toks, i, true),
        standard_ligature_at(toks, i) == Some(n),
    ensures
        segments_from(toks, widths, i, bold, italic, true) == seq![
            run_segment(toks, widths, i, i + n, bold, italic, true),
        ] + segments_from(toks, widths, i + n, bold, italic, true),
{
    reveal(segments_from);
}

/// Any other token is a segment of its own: shaped when it has several
/// characters, plain when it has one.
pub proof fn lemma_segments_from_single(
    toks: Seq<Seq<char>>,
    widths: Seq<u32>,
    i: int,
    bold: bool,
    italic: bool,
    ligatures: bool,
)
    requires
        0 <= i < toks.len(),
        starts_no_run(toks, i, ligatures),
        !(ligatures && standard_ligature_at(toks, i) is Some),
    ensures
        toks[i].len() > 1 ==> segments_from(toks, widths, i, bold, italic, ligatures) == seq![
            run_segment(toks, widths, i, i + 1, bold, italic, false),
        ] + segments_from(toks, widths, i + 1, bold, italic, ligatures),
        toks[i].len() == 1 ==> segments_from(toks, widths, i, bold, italic, ligatures) == seq![
            plain_segment(toks[i][0], widths[i], bold, italic),
        ] + segments_from(toks, widths, i + 1, bold, italic, ligatures),
        toks[i].len() == 0 ==> segments_from(toks, widths, i, bold, italic, ligatures)
            == segments_from(toks, widths, i + 1, bold, italic, ligatures),
{
    reveal(segments_from);
}

/// Flattening a concatenation flattens each part.
pub proof fn lemma_flatten_concat<A>(a: Seq<Seq<A>>, b: Seq<Seq<A>>)
    ensures
        (a + b).flatten() == a.flatten() + b.flatten(),
    decreases a.len(),
{
    if a.len() == 0 {
        assert(a + b =~= b);
        assert(a.flatten() + b.flatten() =~= b.flatten());
    } else {
        lemma_flatten_concat(a.drop_first(), b);
        assert((a + b).drop_first() =~= a.drop_first() + b);
        assert((a + b).first() == a.first());
        assert(a.first() + (a.drop_first().flatten() + b.flatten()) =~= (a.first()
            + a.drop_first().flatten()) + b.flatten());
    }
}

/// The texts of two lists of segments, one after the other.
pub proof fn lemma_segment_texts_concat(x: Seq<SegmentView>, y: Seq<SegmentView>)
    ensures
        segment_texts(x + y) == segment_texts(x) + segment_texts(y),
{
    assert((x + y).map_values(|s: SegmentView| s.text) =~= x.map_values(|s: SegmentView| s.text)
        + y.map_values(|s: SegmentView| s.text));
    lemma_flatten_concat(
        x.map_values(|s: SegmentView| s.text),
        y.map_values(|s: SegmentView| s.text),
    );
}

/// The text of one segment.
pub proof fn lemma_segment_texts_single(x: SegmentView)
    ensures
        segment_texts(seq![x]) == x.text,
{
    assert(seq![x].map_values(|s: SegmentView| s.text) =~= seq![x.text]);
    seq![x.text].lemma_flatten_one_element();
}

/// The tokens `toks[i..k]` are those of `toks[i..j]` followed by those of
/// `toks[j..k]`.
pub proof fn lemma_flatten_split(toks: Seq<Seq<char>>, i: int, j: int, k: int)
    requires
        0 <= i <= j <= k <= toks.len(),
    ensures
        toks.subrange(i, k).flatten() == toks.subrange(i, j).flatten() + toks.subrange(
            j,
            k,
        ).flatten(),
{
    assert(toks.subrange(i, k) =~= toks.subrange(i, j) + toks.subrange(j, k));
    lemma_flatten_concat(toks.subrange(i, j), toks.subrange(j, k));
}

/// A run of one-character segments spells the operator tokens it stands for.
pub proof fn lemma_unit_plain_run_texts(toks: Seq<Seq<char>>, i: int, j: int, bold: bool, italic: bool)
    requires
        0 <= i <= j <= toks.len(),
        forall|k: int| i <= k < j ==> operator_token(#[trigger] toks[k]),
    ensures
        segment_texts(unit_plain_run(toks, i, j, bold, italic)) == toks.subrange(i, j).flatten(),
    decreases j - i,
{
    if j == i {
        assert(unit_plain_run(toks, i, j, bold, italic) =~= Seq::<SegmentView>::empty());
        assert(toks.subrange(i, j) =~= Seq::<Seq<char>>::empty());
        assert(segment_texts(Seq::<SegmentView>::empty()) =~= Seq::<char>::empty());
    } else {
        lemma_unit_plain_run_texts(toks, i, j - 1, bold, italic);
        let last = plain_segment(toks[j - 1][0], 1, bold, italic);
        assert(unit_plain_run(toks, i, j, bold, italic) =~= unit_plain_run(
            toks,
            i,
            j - 1,
            bold,
            italic,
        ) + seq![last]);
        lemma_segment_texts_concat(unit_plain_run(toks, i, j - 1, bold, italic), seq![last]);
        lemma_segment_texts_single(last);
        assert(operator_token(toks[j - 1]));
        assert(last.text =~= toks[j - 1]);
        assert(toks.subrange(i, j) =~= toks.subrange(i, j - 1).push(toks[j - 1]));
        toks.subrange(i, j - 1).lemma_flatten_push(toks[j - 1]);
    }
}

/// A segment keeps the rules of its kind: it carries the style; a shaped
/// segment is drawn with the cluster named by the hash of its text; any
/// other segment is one character drawn with that character's glyph and is
/// no ligature; and ligatures occur only when they are on.
pub open spec fn segment_follows_rules(
    segment: SegmentView,
    bold: bool,
    italic: bool,
    ligatures: bool,
) -> bool {
    &&& segment.glyph_key.bold == bold
    &&& segment.glyph_key.italic == italic
    &&& segment.shaped ==> segment.glyph_key.identity == WgpuTerminalGlyphIdentity::Cluster(
        text_hash(segment.text),
    )
    &&& !segment.shaped ==> {
        &&& segment.text.len() == 1
        &&& segment.glyph_key.identity == WgpuTerminalGlyphIdentity::Character(segment.text[0])
        &&& !segment.ligature
    }
    &&& segment.ligature ==> ligatures
}

/// Every segment of a list keeps the rules of its kind.
pub open spec fn all_follow_rules(
    segments: Seq<SegmentView>,
    bold: bool,
    italic: bool,
    ligatures: bool,
) -> bool {
    forall|k: int|
        0 <= k < segments.len() ==> segment_follows_rules(
            #[trigger] segments[k],
            bold,
            italic,
            ligatures,
        )
}

/// Segmenting the tokens from `i` on keeps every token's text, in order:
/// the segment texts, one after the other, are the tokens' characters; and
/// every segment keeps the rules of its kind.
pub proof fn lemma_segments_from_laws(
    toks: Seq<Seq<char>>,
    widths: Seq<u32>,
    i: int,
    bold: bool,
    italic: bool,
    ligatures: bool,
)
    requires
        0 <= i <= toks.len(),
    ensures
        segment_texts(segments_from(toks, widths, i, bold, italic, ligatures)) == toks.subrange(
            i,
            toks.len() as int,
        ).flatten(),
        all_follow_rules(segments_from(toks, widths, i, bold, italic, ligatures), bold, italic, ligatures),
    decreases toks.len() - i,
{
    let len = toks.len() as int;
    let all = segments_from(toks, widths, i, bold, italic, ligatures);
    if i == len {
        lemma_segments_from_outside(toks, widths, i, bold, italic, ligatures);
        assert(toks.subrange(i, len) =~= Seq::<Seq<char>>::empty());
        assert(segment_texts(Seq::<SegmentView>::empty()) =~= Seq::<char>::empty());
        return;
    }
    let (head, next): (Seq<SegmentView>, int) = if contextual_token(toks[i]) {
        lemma_contextual_run_end(toks, i + 1);
        lemma_segments_from_contextual(toks, widths, i, bold, italic, ligatures);
        let j = contextual_run_end(toks, i + 1);
        (seq![run_segment(toks, widths, i, j, bold, italic, false)], j)
    } else {
        lemma_operator_run_end(toks, i + 1);
        let j = operator_run_end(toks, i + 1);
        if ligatures && operator_token(toks[i]) && shapes_operator_run(toks, i, j) {
            lemma_segments_from_operator_ligature(toks, widths, i, bold, italic);
            (seq![run_segment(toks, widths, i, j, bold, italic, true)], j)
        } else if ligatures && operator_token(toks[i]) && j - i > 4 {
            lemma_segments_from_operator_fill(toks, widths, i, bold, italic);
            lemma_unit_plain_run_texts(toks, i, j, bold, italic);
            (unit_plain_run(toks, i, j, bold, italic), j)
        } else if ligatures && standard_ligature_at(toks, i) is Some {
            let n = standard_ligature_at(toks, i)->0;
            lemma_segments_from_standard_ligature(toks, widths, i, n, bold, italic);
            (seq![run_segment(toks, widths, i, i + n, bold, italic, true)], i + n)
        } else {
            lemma_segments_from_single(toks, widths, i, bold, italic, ligatures);
            if toks[i].len() > 1 {
                (seq![run_segment(toks, widths, i, i + 1, bold, italic, false)], i + 1)
            } else if toks[i].len() == 1 {
                assert(seq![toks[i][0]] =~= toks[i]);
                (seq![plain_segment(toks[i][0], widths[i], bold, italic)], i + 1)
            } else {
                (Seq::empty(), i + 1)
            }
        }
    };
    assert(all == head + segments_from(toks, widths, next, bold, italic, ligatures));
    assert(i < next <= len);
    assert(segment_texts(head) == toks.subrange(i, next).flatten()) by {
        if head.len() == 1 {
            lemma_segment_texts_single(head[0]);
            if next == i + 1 {
                assert(toks.subrange(i, i + 1) =~= seq![toks[i]]);
                seq![toks[i]].lemma_flatten_one_element();
            }
        } else if head.len() == 0 {
            assert(toks.subrange(i, i + 1) =~= seq![toks[i]]);
            seq![toks[i]].lemma_flatten_one_element();
            assert(segment_texts(Seq::<SegmentView>::empty()) =~= Seq::<char>::empty());
        }
    }
    assert(all_follow_rules(head, bold, italic, ligatures));
    lemma_segments_from_laws(toks, widths, next, bold, italic, ligatures);
    lemma_segment_texts_concat(head, segments_from(toks, widths, next, bold, italic, ligatures));
    lemma_flatten_split(toks, i, next, len);
    let rest = segments_from(toks, widths, next, bold, italic, ligatures);
    assert forall|k: int| 0 <= k < all.len() implies segment_follows_rules(
        #[trigger] all[k],
        bold,
        italic,
        ligatures,
    ) by {
        if k < head.len() {
            assert(all[k] == head[k]);
        } else {
            assert(all[k] == rest[k - head.len()]);
        }
    }
}

/// Each character of a text as a token of its own spells the text.
pub proof fn lemma_char_tokens_flatten(text: Seq<char>)
    ensures
        char_tokens(text).flatten() == text,
    decreases text.len(),
{
    if text.len() > 0 {
        lemma_char_tokens_flatten(text.drop_last());
        assert(char_tokens(text) =~= char_tokens(text.drop_last()).push(seq![text.last()]));
        char_tokens(text.drop_last()).lemma_flatten_push(seq![text.last()]);
        assert(text.drop_last() + seq![text.last()] =~= text);
    } else {
        assert(char_tokens(text) =~= Seq::<Seq<char>>::empty());
    }
}

// ---------------------------------------------------------------------------
// Executable rules.
// ---------------------------------------------------------------------------

/// FNV-1a over the UTF-8 bytes of `text`: a stable name for a shaped cluster.
fn stable_text_hash(text: &str) -> (hash: u64)
    ensures
        hash == text_hash(text@),
{
    let bytes = text.as_bytes();
    let mut hash: u64 = FNV_OFFSET_BASIS;
    let mut i: usize = 0;
    while i < bytes.len()
        invariant
            i <= bytes@.len(),
            bytes@ == vstd::utf8::encode_utf8(text@),
            hash == fnv1a(bytes@.subrange(0, i as int)),
        decreases bytes@.len() - i,
    {
        proof {
            assert(bytes@.subrange(0, i as int + 1).drop_last() =~= bytes@.subrange(0, i as int));
        }
        hash = (hash ^ (bytes[i] as u64)).wrapping_mul(FNV_PRIME);
        i = i + 1;
    }
    proof {
        assert(bytes@.subrange(0, bytes@.len() as int) =~= bytes@);
    }
    hash
}

/// Whether `c` is ASCII punctuation that programming ligatures are made of.
fn is_code_operator_char(c: char) -> (r: bool)
    ensures
        r == code_operator_char(c),
{
    c == '!' || c == '#' || c == '$' || c == '%' || c == '&' || c == '*' || c == '+' || c == '-'
        || c == '.' || c == '/' || c == ':' || c == '<' || c == '=' || c == '>' || c == '?'
        || c == '@' || c == '\\' || c == '^' || c == '|' || c == '~'
}

/// Whether `c` belongs to a script whose letters join or reorder.
fn is_contextual_script_character(c: char) -> (r: bool)
    ensures
        r == contextual_script_char(c),
{
    let v = c as u32;
    (0x0600 <= v && v <= 0x06ff) || (0x0700 <= v && v <= 0x074f) || (0x0750 <= v && v <= 0x077f)
        || (0x0780 <= v && v <= 0x07bf) || (0x0840 <= v && v <= 0x085f) || (0x08a0 <= v && v
        <= 0x08ff) || (0x0900 <= v && v <= 0x0dff) || (0x0e00 <= v && v <= 0x0fff) || (0x1000
        <= v && v <= 0x109f) || (0x1780 <= v && v <= 0x17ff) || (0xa980 <= v && v <= 0xa9df)
        || (0xaa60 <= v && v <= 0xaa7f) || (0xfb50 <= v && v <= 0xfdff) || (0xfe70 <= v && v
        <= 0xfeff)
}

/// Whether the grapheme holds a character of a joining script.
fn is_contextual_script_grapheme(grapheme: &String) -> (r: bool)
    ensures
        r == contextual_token(grapheme@),
{
    let s = grapheme.as_str();
    let n = s.unicode_len();
    let mut k: usize = 0;
    while k < n
        invariant
            n == grapheme@.len(),
            s@ == grapheme@,
            k <= n,
            forall|m: int| 0 <= m < k ==> !contextual_script_char(#[trigger] grapheme@[m]),
        decreases n - k,
    {
        if is_contextual_script_character(s.get_char(k)) {
            return true;
        }
        k = k + 1;
    }
    false
}

/// Whether the grapheme is one code-operator character.
fn is_code_operator_grapheme(grapheme: &String) -> (r: bool)
    ensures
        r == operator_token(grapheme@),
{
    let s = grapheme.as_str();
    s.unicode_len() == 1 && is_code_operator_char(s.get_char(0))
}

/// Whether the grapheme is exactly the character `c`.
fn grapheme_is_char(grapheme: &String, c: char) -> (r: bool)
    ensures
        r == (grapheme@ == seq![c]),
{
    let s = grapheme.as_str();
    if s.unicode_len() == 1 && s.get_char(0) == c {
        assert(grapheme@ =~= seq![c]);
        true
    } else {
        false
    }
}

/// Whether the graphemes from `index` on spell the two-letter `word`.
fn spells_two(graphemes: &Vec<String>, index: usize, a: char, b: char) -> (r: bool)
    ensures
        r == spells(tokens_of(graphemes@), index as int, seq![a, b]),
{
    let ghost toks = tokens_of(graphemes@);
    let ghost word = seq![a, b];
    if index < graphemes.len() && graphemes.len() - index >= 2 {
        let first = grapheme_is_char(&graphemes[index], a);
        let second = grapheme_is_char(&graphemes[index + 1], b);
        proof {
            if first && second {
                assert forall|k: int| 0 <= k < word.len() implies toks[index + k] == seq![
                    #[trigger] word[k],
                ] by {}
            } else if !first {
                assert(word[0] == a);
            } else {
                assert(word[1] == b);
            }
        }
        first && second
    } else {
        false
    }
}

/// Whether the graphemes from `index` on spell the three-letter `word`.
fn spells_three(graphemes: &Vec<String>, index: usize, a: char, b: char, c: char) -> (r: bool)
    ensures
        r == spells(tokens_of(graphemes@), index as int, seq![a, b, c]),
{
    let ghost toks = tokens_of(graphemes@);
    let ghost word = seq![a, b, c];
    if index < graphemes.len() && graphemes.len() - index >= 3 {
        let first = grapheme_is_char(&graphemes[index], a);
        let second = grapheme_is_char(&graphemes[index + 1], b);
        let third = grapheme_is_char(&graphemes[index + 2], c);
        proof {
            if first && second && third {
                assert forall|k: int| 0 <= k < word.len() implies toks[index + k] == seq![
                    #[trigger] word[k],
                ] by {}
            } else if !first {
                assert(word[0] == a);
            } else if !second {
                assert(word[1] == b);
            } else {
                assert(word[2] == c);
            }
        }
        first && second && third
    } else {
        false
    }
}

/// The length of the standard ligature that starts at `index`, if any.
fn standard_ligature_len(graphemes: &Vec<String>, index: usize) -> (r: Option<usize>)
    ensures
        r matches Some(n) ==> standard_ligature_at(tokens_of(graphemes@), index as int) == Some(
            n as int,
        ),
        r is None ==> standard_ligature_at(tokens_of(graphemes@), index as int) is None,
{
    if spells_three(graphemes, index, 'f', 'f', 'i') {
        Some(3)
    } else if spells_three(graphemes, index, 'f', 'f', 'l') {
        Some(3)
    } else if spells_three(graphemes, index, 'w', 'w', 'w') {
        Some(3)
    } else if spells_two(graphemes, index, 'f', 'f') {
        Some(2)
    } else if spells_two(graphemes, index, 'f', 'i') {
        Some(2)
    } else if spells_two(graphemes, index, 'f', 'l') {
        Some(2)
    } else {
        None
    }
}

/// Where the run of operator graphemes that goes on at `start` ends.
fn operator_run_end_at(graphemes: &Vec<String>, start: usize) -> (end: usize)
    requires
        start <= graphemes@.len(),
    ensures
        end == operator_run_end(tokens_of(graphemes@), start as int),
{
    let ghost toks = tokens_of(graphemes@);
    let mut end = start;
    while end < graphemes.len() && is_code_operator_grapheme(&graphemes[end])
        invariant
            start <= end <= graphemes@.len(),
            toks == tokens_of(graphemes@),
            operator_run_end(toks, start as int) == operator_run_end(toks, end as int),
        decreases graphemes@.len() - end,
    {
        end = end + 1;
    }
    end
}

/// Where the run of joining-script graphemes that goes on at `start` ends.
fn contextual_run_end_at(graphemes: &Vec<String>, start: usize) -> (end: usize)
    requires
        start <= graphemes@.len(),
    ensures
        end == contextual_run_end(tokens_of(graphemes@), start as int),
{
    let ghost toks = tokens_of(graphemes@);
    let mut end = start;
    while end < graphemes.len() && is_contextual_script_grapheme(&graphemes[end])
        invariant
            start <= end <= graphemes@.len(),
            toks == tokens_of(graphemes@),
            contextual_run_end(toks, start as int) == contextual_run_end(toks, end as int),
        decreases graphemes@.len() - end,
    {
        end = end + 1;
    }
    end
}

/// Whether the operator run `graphemes[start..end]` is shaped as one ligature.
fn should_shape_operator_run(graphemes: &Vec<String>, start: usize, end: usize) -> (r: bool)
    requires
        start <= end <= graphemes@.len(),
    ensures
        r == shapes_operator_run(tokens_of(graphemes@), start as int, end as int),
{
    let ghost toks = tokens_of(graphemes@);
    let len = end - start;
    if len <= 1 {
        return false;
    }
    if len <= 4 {
        return true;
    }
    let mut k = start;
    while k + 1 < end
        invariant
            start <= k < end <= graphemes@.len(),
            toks == tokens_of(graphemes@),
            forall|m: int| start <= m < k ==> #[trigger] toks[m] == toks[m + 1],
        decreases end - k,
    {
        if graphemes[k] != graphemes[k + 1] {
            assert(toks[k as int] != toks[k as int + 1]);
            return true;
        }
        k = k + 1;
    }
    false
}

/// The sum of `widths[start..end]`, wrapping as `u32` addition does.
fn sum_widths(widths: &Vec<u32>, start: usize, end: usize) -> (total: u32)
    requires
        start <= end <= widths@.len(),
    ensures
        total == width_total(widths@.subrange(start as int, end as int)),
{
    let mut total: u32 = 0;
    let mut k = start;
    while k < end
        invariant
            start <= k <= end <= widths@.len(),
            total == width_total(widths@.subrange(start as int, k as int)),
        decreases end - k,
    {
        proof {
            assert(widths@.subrange(start as int, k as int + 1).drop_last() =~= widths@.subrange(
                start as int,
                k as int,
            ));
        }
        total = total.wrapping_add(widths[k]);
        k = k + 1;
    }
    total
}

/// The shaped segment of `graphemes[start..end]`.
fn push_shaped_segment(
    segments: &mut Vec<TerminalTextSegment>,
    graphemes: &Vec<String>,
    widths: &Vec<u32>,
    start: usize,
    end: usize,
    style: TextStyleDto,
    ligature: bool,
)
    requires
        start <= end <= graphemes@.len(),
        graphemes@.len() == widths@.len(),
    ensures
        segments_view(final(segments)@) == segments_view(old(segments)@).push(
            run_segment(
                tokens_of(graphemes@),
                widths@,
                start as int,
                end as int,
                style.bold,
                style.italic,
                ligature,
            ),
        ),
{
    let ghost toks = tokens_of(graphemes@);
    let mut text = String::new();
    let mut k = start;
    while k < end
        invariant
            start <= k <= end <= graphemes@.len(),
            toks == tokens_of(graphemes@),
            text@ == toks.subrange(start as int, k as int).flatten(),
        decreases end - k,
    {
        proof {
            assert(toks.subrange(start as int, k as int + 1) =~= toks.subrange(
                start as int,
                k as int,
            ).push(toks[k as int]));
            toks.subrange(start as int, k as int).lemma_flatten_push(toks[k as int]);
        }
        text.append(graphemes[k].as_str());
        k = k + 1;
    }
    let cell_width = sum_widths(widths, start, end);
    let hash = stable_text_hash(text.as_str());
    let segment = TerminalTextSegment {
        text,
        cell_width,
        glyph_key: WgpuTerminalGlyphKey::cluster(hash, style.bold, style.italic),
        shaped: true,
        ligature,
    };
    segments.push(segment);
    proof {
        assert(segments_view(segments@) =~= segments_view(old(segments)@).push(segment@));
    }
}

/// The plain segment of the one character `c`.
fn push_plain_segment(
    segments: &mut Vec<TerminalTextSegment>,
    grapheme: &String,
    c: char,
    cell_width: u32,
    style: TextStyleDto,
)
    requires
        grapheme@ == seq![c],
    ensures
        segments_view(final(segments)@) == segments_view(old(segments)@).push(
            plain_segment(c, cell_width, style.bold, style.italic),
        ),
{
    let segment = TerminalTextSegment {
        text: grapheme.clone(),
        cell_width,
        glyph_key: WgpuTerminalGlyphKey::styled(c, style.bold, style.italic),
        shaped: false,
        ligature: false,
    };
    segments.push(segment);
    proof {
        assert(segments_view(segments@) =~= segments_view(old(segments)@).push(segment@));
    }
}

/// Appends the segments that start at `graphemes[index]` and returns where
/// the next segment starts.
#[verifier::rlimit(40)]
fn push_segments_at(
    segments: &mut Vec<TerminalTextSegment>,
    graphemes: &Vec<String>,
    widths: &Vec<u32>,
    index: usize,
    style: TextStyleDto,
    ligatures: bool,
) -> (next: usize)
    requires
        index < graphemes@.len(),
        graphemes@.len() == widths@.len(),
    ensures
        index < next <= graphemes@.len(),
        segments_view(final(segments)@) + segments_from(
            tokens_of(graphemes@),
            widths@,
            next as int,
            style.bold,
            style.italic,
            ligatures,
        ) == segments_view(old(segments)@) + segments_from(
            tokens_of(graphemes@),
            widths@,
            index as int,
            style.bold,
            style.italic,
            ligatures,
        ),
{
    let ghost toks = tokens_of(graphemes@);
    let ghost bold = style.bold;
    let ghost italic = style.italic;
    let n = graphemes.len();
    assert(toks[index as int] == graphemes@[index as int]@);
    if is_contextual_script_grapheme(&graphemes[index]) {
        let end = contextual_run_end_at(graphemes, index + 1);
        proof {
            lemma_contextual_run_end(toks, index as int + 1);
            lemma_segments_from_contextual(toks, widths@, index as int, bold, italic, ligatures);
        }
        push_shaped_segment(segments, graphemes, widths, index, end, style, false);
        return end;
    }
    let is_operator = ligatures && is_code_operator_grapheme(&graphemes[index]);
    let end = operator_run_end_at(graphemes, index + 1);
    proof {
        lemma_operator_run_end(toks, index as int + 1);
    }
    if is_operator && should_shape_operator_run(graphemes, index, end) {
        proof {
            lemma_segments_from_operator_ligature(toks, widths@, index as int, bold, italic);
        }
        push_shaped_segment(segments, graphemes, widths, index, end, style, true);
        return end;
    }
    if is_operator && end - index > 4 {
        proof {
            lemma_segments_from_operator_fill(toks, widths@, index as int, bold, italic);
        }
        push_unit_plain_run(segments, graphemes, index, end, style);
        return end;
    }
    assert(starts_no_run(toks, index as int, ligatures));
    if ligatures {
        if let Some(len) = standard_ligature_len(graphemes, index) {
            proof {
                lemma_segments_from_standard_ligature(toks, widths@, index as int, len as int, bold, italic);
            }
            let lig_end = index + len;
            push_shaped_segment(segments, graphemes, widths, index, lig_end, style, true);
            return lig_end;
        }
    }
    proof {
        lemma_segments_from_single(toks, widths@, index as int, bold, italic, ligatures);
    }
    let grapheme = &graphemes[index];
    let count = grapheme.as_str().unicode_len();
    if count > 1 {
        push_shaped_segment(segments, graphemes, widths, index, index + 1, style, false);
    } else if count == 1 {
        let c = grapheme.as_str().get_char(0);
        assert(grapheme@ =~= seq![c]);
        push_plain_segment(segments, grapheme, c, widths[index], style);
    }
    index + 1
}

/// One plain segment of width one per operator grapheme of
/// `graphemes[start..end]`.
fn push_unit_plain_run(
    segments: &mut Vec<TerminalTextSegment>,
    graphemes: &Vec<String>,
    start: usize,
    end: usize,
    style: TextStyleDto,
)
    requires
        start <= end <= graphemes@.len(),
        forall|m: int| start <= m < end ==> operator_token(#[trigger] tokens_of(graphemes@)[m]),
    ensures
        segments_view(final(segments)@) == segments_view(old(segments)@) + unit_plain_run(
            tokens_of(graphemes@),
            start as int,
            end as int,
            style.bold,
            style.italic,
        ),
{
    let ghost toks = tokens_of(graphemes@);
    let ghost before = segments_view(segments@);
    let mut k = start;
    while k < end
        invariant
            start <= k <= end <= graphemes@.len(),
            toks == tokens_of(graphemes@),
            forall|m: int| start <= m < end ==> operator_token(#[trigger] toks[m]),
            segments_view(segments@) == before + unit_plain_run(
                toks,
                start as int,
                k as int,
                style.bold,
                style.italic,
            ),
        decreases end - k,
    {
        let grapheme = &graphemes[k];
        assert(operator_token(toks[k as int]));
        assert(toks[k as int] == grapheme@);
        let c = grapheme.as_str().get_char(0);
        assert(grapheme@ =~= seq![c]);
        push_plain_segment(segments, grapheme, c, 1, style);
        assert(unit_plain_run(toks, start as int, k as int + 1, style.bold, style.italic)
            =~= unit_plain_run(toks, start as int, k as int, style.bold, style.italic).push(
            plain_segment(c, 1, style.bold, style.italic),
        ));
        k = k + 1;
    }
}

/// Segments a list of graphemes, each with its cell width, as
/// `segments_from` says.
pub fn grapheme_segments(
    graphemes: &Vec<String>,
    widths: &Vec<u32>,
    style: TextStyleDto,
    ligatures: bool,
) -> (segments: Vec<TerminalTextSegment>)
    requires
        graphemes@.len() == widths@.len(),
    ensures
        segments_view(segments@) == segments_from(
            tokens_of(graphemes@),
            widths@,
            0,
            style.bold,
            style.italic,
            ligatures,
        ),
{
    let ghost toks = tokens_of(graphemes@);
    let n = graphemes.len();
    let mut segments: Vec<TerminalTextSegment> = Vec::new();
    let mut index: usize = 0;
    while index < n
        invariant
            n == graphemes@.len(),
            n == widths@.len(),
            toks == tokens_of(graphemes@),
            index <= n,
            segments_view(segments@) + segments_from(
                toks,
                widths@,
                index as int,
                style.bold,
                style.italic,
                ligatures,
            ) == segments_from(toks, widths@, 0, style.bold, style.italic, ligatures),
        decreases n - index,
    {
        index = push_segments_at(&mut segments, graphemes, widths, index, style, ligatures);
    }
    proof {
        lemma_segments_from_outside(toks, widths@, n as int, style.bold, style.italic, ligatures);
        assert(segments_view(segments@) + Seq::<SegmentView>::empty() =~= segments_view(segments@));
    }
    segments
}

/// The cell width of a grapheme: its display width, at most two.
pub fn terminal_grapheme_cell_width(grapheme: &str) -> (width: u32)
    ensures
        width == grapheme_cell_width(grapheme@),
{
    let width = str_display_width(grapheme);
    if width < 2 {
        width as u32
    } else {
        2
    }
}

/// The cell width of each grapheme.
fn grapheme_cell_widths(graphemes: &Vec<String>) -> (widths: Vec<u32>)
    ensures
        widths@ == cell_widths(tokens_of(graphemes@)),
{
    let mut widths: Vec<u32> = Vec::new();
    let mut k: usize = 0;
    while k < graphemes.len()
        invariant
            k <= graphemes@.len(),
            widths@ == cell_widths(tokens_of(graphemes@)).subrange(0, k as int),
        decreases graphemes@.len() - k,
    {
        let width = terminal_grapheme_cell_width(graphemes[k].as_str());
        widths.push(width);
        proof {
            assert(widths@ =~= cell_widths(tokens_of(graphemes@)).subrange(0, k as int + 1));
        }
        k = k + 1;
    }
    proof {
        assert(widths@ =~= cell_widths(tokens_of(graphemes@)));
    }
    widths
}

/// Whether the text is only printable ASCII characters and spaces.
fn is_printable_ascii_text(text: &str) -> (r: bool)
    ensures
        r == printable_ascii(text@),
{
    broadcast use vstd::string::is_ascii_spec_bytes;

    if !text.is_ascii() {
        proof {
            let k = choose|k: int|
                0 <= k < text@.len() && !('\0' <= #[trigger] text@[k] <= '\u{7f}');
            assert(!(0x20 <= (text@[k] as int) <= 0x7e));
        }
        return false;
    }
    let bytes = text.as_bytes();
    proof {
        assert(bytes@ =~= Seq::new(text@.len(), |i| text@.index(i) as u8));
    }
    let mut k: usize = 0;
    while k < bytes.len()
        invariant
            k <= bytes@.len(),
            bytes@.len() == text@.len(),
            vstd::utf8::is_ascii_chars(text@),
            forall|i: int| 0 <= i < bytes@.len() ==> #[trigger] bytes@[i] == text@[i] as u8,
            forall|i: int| 0 <= i < k ==> 0x20 <= (#[trigger] text@[i] as int) <= 0x7e,
        decreases bytes@.len() - k,
    {
        let b = bytes[k];
        proof {
            let c = text@[k as int];
            assert('\0' <= c <= '\u{7f}');
            assert(b == c as u8);
            assert((c as u8) as int == c as int);
        }
        if b < 0x20 || b > 0x7e {
            return false;
        }
        k = k + 1;
    }
    true
}

/// Splits a line of terminal text into the segments that are drawn with one
/// glyph each, as `text_segments` says; with `ligatures` off no operator run
/// or standard ligature is joined.
pub fn terminal_text_segments_with_ligatures(
    text: &str,
    style: TextStyleDto,
    ligatures: bool,
) -> (segments: Vec<TerminalTextSegment>)
    ensures
        segments_view(segments@) == text_segments(text@, style.bold, style.italic, ligatures),
        segment_texts(segments_view(segments@)) == (if printable_ascii(text@) {
            text@
        } else {
            nfc_of(text@)
        }),
        all_follow_rules(segments_view(segments@), style.bold, style.italic, ligatures),
{
    if is_printable_ascii_text(text) {
        let segments = ascii_text_segments(text, style, ligatures);
        proof {
            let toks = char_tokens(text@);
            lemma_segments_from_laws(toks, unit_widths(text@.len()), 0, style.bold, style.italic, ligatures);
            lemma_char_tokens_flatten(text@);
            assert(toks.subrange(0, toks.len() as int) =~= toks);
        }
        return segments;
    }
    let normalized = nfc_normalize(text);
    let graphemes = extended_graphemes(normalized.as_str());
    let widths = grapheme_cell_widths(&graphemes);
    let segments = grapheme_segments(&graphemes, &widths, style, ligatures);
    proof {
        let toks = tokens_of(graphemes@);
        lemma_segments_from_laws(toks, widths@, 0, style.bold, style.italic, ligatures);
        assert(toks.subrange(0, toks.len() as int) =~= toks);
    }
    segments
}

/// Splits a line of terminal text into segments, with ligatures on.
pub fn terminal_text_segments(text: &str, style: TextStyleDto) -> (segments: Vec<
    TerminalTextSegment,
>)
    ensures
        segments_view(segments@) == text_segments(text@, style.bold, style.italic, true),
        segment_texts(segments_view(segments@)) == (if printable_ascii(text@) {
            text@
        } else {
            nfc_of(text@)
        }),
        all_follow_rules(segments_view(segments@), style.bold, style.italic, true),
{
    terminal_text_segments_with_ligatures(text, style, true)
}

/// The one-character segments for graphemes of non-zero width, each drawn
/// with its first character's glyph, as `fallback_from` says.
pub fn fallback_segments(
    graphemes: &Vec<String>,
    widths: &Vec<u32>,
    bold: bool,
    italic: bool,
) -> (segments: Vec<TerminalTextSegment>)
    requires
        graphemes@.len() == widths@.len(),
    ensures
        segments_view(segments@) == fallback_from(tokens_of(graphemes@), widths@, bold, italic),
{
    let ghost toks = tokens_of(graphemes@);
    let mut segments: Vec<TerminalTextSegment> = Vec::new();
    let mut k: usize = 0;
    while k < graphemes.len()
        invariant
            k <= graphemes@.len(),
            graphemes@.len() == widths@.len(),
            toks == tokens_of(graphemes@),
            segments_view(segments@) == fallback_from(
                toks.subrange(0, k as int),
                widths@.subrange(0, k as int),
                bold,
                italic,
            ),
        decreases graphemes@.len() - k,
    {
        let ghost before = segments_view(segments@);
        let s = graphemes[k].as_str();
        let width = widths[k];
        proof {
            assert(toks.subrange(0, k as int + 1).drop_last() =~= toks.subrange(0, k as int));
            assert(widths@.subrange(0, k as int + 1).drop_last() =~= widths@.subrange(0, k as int));
            assert(toks.subrange(0, k as int + 1).last() == s@);
        }
        if s.unicode_len() > 0 && width > 0 {
            let c = s.get_char(0);
            let segment = TerminalTextSegment {
                text: s.substring_char(0, 1).to_owned(),
                cell_width: width,
                glyph_key: WgpuTerminalGlyphKey::styled(c, bold, italic),
                shaped: false,
                ligature: false,
            };
            proof {
                assert(segment.text@ =~= seq![c]);
            }
            segments.push(segment);
            proof {
                assert(segments_view(segments@) =~= before.push(segment@));
            }
        }
        k = k + 1;
    }
    proof {
        assert(toks.subrange(0, graphemes@.len() as int) =~= toks);
        assert(widths@.subrange(0, graphemes@.len() as int) =~= widths@);
    }
    segments
}

/// The one-character segments that stand in for a shaped segment when the
/// cursor sits on it: one per grapheme of its text that takes cells, drawn
/// with that grapheme's first character in the segment's style. A segment
/// that is not shaped has none.
pub fn cursor_fallback_segments(segment: &TerminalTextSegment) -> (segments: Vec<
    TerminalTextSegment,
>)
    ensures
        !segment.shaped ==> segments@.len() == 0,
        segment.shaped ==> segments_view(segments@) == fallback_from(
            extended_graphemes_of(segment.text@),
            cell_widths(extended_graphemes_of(segment.text@)),
            segment.glyph_key.bold,
            segment.glyph_key.italic,
        ),
{
    if !segment.shaped {
        return Vec::new();
    }
    let graphemes = extended_graphemes(segment.text.as_str());
    let widths = grapheme_cell_widths(&graphemes);
    fallback_segments(&graphemes, &widths, segment.glyph_key.bold(), segment.glyph_key.italic())
}

// ---------------------------------------------------------------------------
// The fast path for printable ASCII text, over its bytes.
// ---------------------------------------------------------------------------

/// The bytes of the ASCII punctuation that programming ligatures are made of.
pub open spec fn code_operator_byte(b: u8) -> bool {
    b == 0x21 || b == 0x23 || b == 0x24 || b == 0x25 || b == 0x26 || b == 0x2a || b == 0x2b || b
        == 0x2d || b == 0x2e || b == 0x2f || b == 0x3a || b == 0x3c || b == 0x3d || b == 0x3e || b
        == 0x3f || b == 0x40 || b == 0x5c || b == 0x5e || b == 0x7c || b == 0x7e
}

/// An operator run of bytes is shaped when it has two to four bytes, or more
/// bytes that are not all the same.
pub open spec fn shapes_byte_run(bytes: Seq<u8>) -> bool {
    bytes.len() > 1 && (bytes.len() <= 4 || exists|k: int|
        0 <= k && k + 1 < bytes.len() && #[trigger] bytes[k] != bytes[k + 1])
}

/// The bytes begin with the ASCII `word`.
pub open spec fn bytes_begin_with(bytes: Seq<u8>, word: Seq<char>) -> bool {
    word.len() <= bytes.len() && forall|k: int| 0 <= k < word.len() ==> bytes[k] == (#[trigger] word[k]) as u8
}

/// The length of the standard ligature the bytes begin with, if any.
pub open spec fn byte_ligature_len(bytes: Seq<u8>) -> Option<int> {
    if bytes_begin_with(bytes, seq!['f', 'f', 'i']) {
        Some(3)
    } else if bytes_begin_with(bytes, seq!['f', 'f', 'l']) {
        Some(3)
    } else if bytes_begin_with(bytes, seq!['w', 'w', 'w']) {
        Some(3)
    } else if bytes_begin_with(bytes, seq!['f', 'f']) {
        Some(2)
    } else if bytes_begin_with(bytes, seq!['f', 'i']) {
        Some(2)
    } else if bytes_begin_with(bytes, seq!['f', 'l']) {
        Some(2)
    } else {
        None
    }
}

/// Whether `byte` is ASCII punctuation that programming ligatures are made of.
pub fn is_code_operator_byte(byte: u8) -> (r: bool)
    ensures
        r == code_operator_byte(byte),
{
    byte == 0x21 || byte == 0x23 || byte == 0x24 || byte == 0x25 || byte == 0x26 || byte == 0x2a
        || byte == 0x2b || byte == 0x2d || byte == 0x2e || byte == 0x2f || byte == 0x3a || byte
        == 0x3c || byte == 0x3d || byte == 0x3e || byte == 0x3f || byte == 0x40 || byte == 0x5c
        || byte == 0x5e || byte == 0x7c || byte == 0x7e
}

/// Whether a run of operator bytes is shaped as one ligature.
pub fn should_shape_ascii_operator_run(bytes: &[u8]) -> (r: bool)
    ensures
        r == shapes_byte_run(bytes@),
{
    let len = bytes.len();
    if len <= 1 {
        return false;
    }
    if len <= 4 {
        return true;
    }
    let mut k: usize = 0;
    while k + 1 < len
        invariant
            len == bytes@.len(),
            len > 4,
            k + 1 <= len,
            forall|m: int| 0 <= m < k ==> #[trigger] bytes@[m] == bytes@[m + 1],
        decreases len - k,
    {
        if bytes[k] != bytes[k + 1] {
            return true;
        }
        k = k + 1;
    }
    false
}

/// Whether the bytes begin with the ASCII word `a b c` (or `a b` when `c`
/// is `None`).
fn bytes_begin_with_word(bytes: &[u8], a: u8, b: u8, c: Option<u8>) -> (r: bool)
    ensures
        c is None ==> r == (bytes@.len() >= 2 && bytes@[0] == a && bytes@[1] == b),
        c matches Some(third) ==> r == (bytes@.len() >= 3 && bytes@[0] == a && bytes@[1] == b
            && bytes@[2] == third),
{
    match c {
        None => bytes.len() >= 2 && bytes[0] == a && bytes[1] == b,
        Some(third) => bytes.len() >= 3 && bytes[0] == a && bytes[1] == b && bytes[2] == third,
    }
}

/// The length of the standard ligature the bytes begin with, if any.
pub fn standard_ascii_ligature_len(bytes: &[u8]) -> (r: Option<usize>)
    ensures
        r matches Some(n) ==> byte_ligature_len(bytes@) == Some(n as int),
        r is None ==> byte_ligature_len(bytes@) is None,
{
    let ghost b = bytes@;
    proof {
        assert(bytes_begin_with(b, seq!['f', 'f', 'i']) <==> (b.len() >= 3 && b[0] == 0x66 && b[1]
            == 0x66 && b[2] == 0x69)) by {
            let w = seq!['f', 'f', 'i'];
            assert(w[0] == 'f' && w[1] == 'f' && w[2] == 'i');
        }
        assert(bytes_begin_with(b, seq!['f', 'f', 'l']) <==> (b.len() >= 3 && b[0] == 0x66 && b[1]
            == 0x66 && b[2] == 0x6c)) by {
            let w = seq!['f', 'f', 'l'];
            assert(w[0] == 'f' && w[1] == 'f' && w[2] == 'l');
        }
        assert(bytes_begin_with(b, seq!['w', 'w', 'w']) <==> (b.len() >= 3 && b[0] == 0x77 && b[1]
            == 0x77 && b[2] == 0x77)) by {
            let w = seq!['w', 'w', 'w'];
            assert(w[0] == 'w' && w[1] == 'w' && w[2] == 'w');
        }
        assert(bytes_begin_with(b, seq!['f', 'f']) <==> (b.len() >= 2 && b[0] == 0x66 && b[1] == 0x66))
            by {
            let w = seq!['f', 'f'];
            assert(w[0] == 'f' && w[1] == 'f');
        }
        assert(bytes_begin_with(b, seq!['f', 'i']) <==> (b.len() >= 2 && b[0] == 0x66 && b[1] == 0x69))
            by {
            let w = seq!['f', 'i'];
            assert(w[0] == 'f' && w[1] == 'i');
        }
        assert(bytes_begin_with(b, seq!['f', 'l']) <==> (b.len() >= 2 && b[0] == 0x66 && b[1] == 0x6c))
            by {
            let w = seq!['f', 'l'];
            assert(w[0] == 'f' && w[1] == 'l');
        }
    }
    if bytes_begin_with_word(bytes, 0x66, 0x66, Some(0x69)) {
        Some(3)
    } else if bytes_begin_with_word(bytes, 0x66, 0x66, Some(0x6c)) {
        Some(3)
    } else if bytes_begin_with_word(bytes, 0x77, 0x77, Some(0x77)) {
        Some(3)
    } else if bytes_begin_with_word(bytes, 0x66, 0x66, None) {
        Some(2)
    } else if bytes_begin_with_word(bytes, 0x66, 0x69, None) {
        Some(2)
    } else if bytes_begin_with_word(bytes, 0x66, 0x6c, None) {
        Some(2)
    } else {
        None
    }
}

/// Printable ASCII text and its bytes, one byte per character.
pub open spec fn ascii_bytes_of(text: Seq<char>, bytes: Seq<u8>) -> bool {
    &&& printable_ascii(text)
    &&& bytes.len() == text.len()
    &&& forall|k: int| 0 <= k < bytes.len() ==> #[trigger] bytes[k] == text[k] as u8
}

/// A character below 128 keeps its code as a byte.
proof fn lemma_ascii_byte(c: char)
    requires
        (c as int) < 128,
    ensures
        (c as u8) as int == c as int,
{
    let v = c as u32;
    assert((v as u8) as int == v as int) by (bit_vector)
        requires
            v < 128,
    ;
}

/// On printable ASCII text, the token rules read the same on bytes.
proof fn lemma_ascii_tokens(text: Seq<char>, bytes: Seq<u8>, k: int, m: int)
    requires
        ascii_bytes_of(text, bytes),
        0 <= k < text.len(),
        0 <= m < text.len(),
    ensures
        !contextual_token(char_tokens(text)[k]),
        operator_token(char_tokens(text)[k]) == code_operator_byte(bytes[k]),
        char_tokens(text)[k].len() == 1,
        char_tokens(text)[k][0] == text[k],
        (char_tokens(text)[k] == char_tokens(text)[m]) == (bytes[k] == bytes[m]),
{
    let c = text[k];
    let d = text[m];
    assert(0x20 <= (c as int) <= 0x7e);
    assert(0x20 <= (d as int) <= 0x7e);
    lemma_ascii_byte(c);
    lemma_ascii_byte(d);
    let t = char_tokens(text)[k];
    assert(t == seq![c]);
    if contextual_token(t) {
        let i = choose|i: int| 0 <= i < t.len() && contextual_script_char(#[trigger] t[i]);
        assert(t[i] == c);
    }
    if char_tokens(text)[k] == char_tokens(text)[m] {
        assert(char_tokens(text)[k][0] == char_tokens(text)[m][0]);
    }
    if bytes[k] == bytes[m] {
        assert(c as int == d as int);
        assert(char_tokens(text)[k] =~= char_tokens(text)[m]);
    }
}

/// The characters of `text[i..j]`, token by token.
proof fn lemma_char_tokens_subrange_flatten(text: Seq<char>, i: int, j: int)
    requires
        0 <= i <= j <= text.len(),
    ensures
        char_tokens(text).subrange(i, j).flatten() == text.subrange(i, j),
    decreases j - i,
{
    if j == i {
        assert(char_tokens(text).subrange(i, j) =~= Seq::<Seq<char>>::empty());
        assert(text.subrange(i, j) =~= Seq::<char>::empty());
    } else {
        lemma_char_tokens_subrange_flatten(text, i, j - 1);
        assert(char_tokens(text).subrange(i, j) =~= char_tokens(text).subrange(i, j - 1).push(
            seq![text[j - 1]],
        ));
        char_tokens(text).subrange(i, j - 1).lemma_flatten_push(seq![text[j - 1]]);
        assert(text.subrange(i, j) =~= text.subrange(i, j - 1) + seq![text[j - 1]]);
    }
}

/// Widths of one per token add up to the number of tokens, wrapped to `u32`.
proof fn lemma_unit_width_total(n: nat, i: int, j: int)
    requires
        0 <= i <= j <= n,
    ensures
        width_total(unit_widths(n).subrange(i, j)) as int == (j - i) % 0x1_0000_0000,
    decreases j - i,
{
    if j == i {
        assert(unit_widths(n).subrange(i, j) =~= Seq::<u32>::empty());
    } else {
        lemma_unit_width_total(n, i, j - 1);
        assert(unit_widths(n).subrange(i, j).drop_last() =~= unit_widths(n).subrange(i, j - 1));
        assert(unit_widths(n).subrange(i, j).last() == 1u32);
    }
}

/// On printable ASCII text, a run of operators is shaped exactly when its
/// bytes are.
proof fn lemma_ascii_shapes_run(text: Seq<char>, bytes: Seq<u8>, i: int, j: int)
    requires
        ascii_bytes_of(text, bytes),
        0 <= i <= j <= text.len(),
    ensures
        shapes_operator_run(char_tokens(text), i, j) == shapes_byte_run(bytes.subrange(i, j)),
{
    let toks = char_tokens(text);
    let b = bytes.subrange(i, j);
    if run_has_change(toks, i, j) {
        let k = choose|k: int| i <= k && k + 1 < j && #[trigger] toks[k] != toks[k + 1];
        lemma_ascii_tokens(text, bytes, k, k + 1);
        assert(b[k - i] != b[k - i + 1]);
    }
    if exists|k: int| 0 <= k && k + 1 < b.len() && #[trigger] b[k] != b[k + 1] {
        let k = choose|k: int| 0 <= k && k + 1 < b.len() && #[trigger] b[k] != b[k + 1];
        lemma_ascii_tokens(text, bytes, k + i, k + i + 1);
        assert(toks[k + i] != toks[k + i + 1]);
    }
}

/// On printable ASCII text, a standard ligature starts where its bytes do.
proof fn lemma_ascii_ligature(text: Seq<char>, bytes: Seq<u8>, i: int)
    requires
        ascii_bytes_of(text, bytes),
        0 <= i < text.len(),
    ensures
        standard_ligature_at(char_tokens(text), i) == byte_ligature_len(
            bytes.subrange(i, text.len() as int),
        ),
{
    lemma_ascii_spells(text, bytes, i, seq!['f', 'f', 'i']);
    lemma_ascii_spells(text, bytes, i, seq!['f', 'f', 'l']);
    lemma_ascii_spells(text, bytes, i, seq!['w', 'w', 'w']);
    lemma_ascii_spells(text, bytes, i, seq!['f', 'f']);
    lemma_ascii_spells(text, bytes, i, seq!['f', 'i']);
    lemma_ascii_spells(text, bytes, i, seq!['f', 'l']);
}

/// The letters `f`, `i`, `l` and `w` keep their codes as bytes.
pub open spec fn ligature_letters(word: Seq<char>) -> bool {
    forall|k: int|
        0 <= k < word.len() ==> (#[trigger] word[k] == 'f' || word[k] == 'i' || word[k] == 'l'
            || word[k] == 'w')
}

proof fn lemma_ascii_spells(text: Seq<char>, bytes: Seq<u8>, i: int, word: Seq<char>)
    requires
        ascii_bytes_of(text, bytes),
        0 <= i < text.len(),
        ligature_letters(word),
    ensures
        spells(char_tokens(text), i, word) == bytes_begin_with(
            bytes.subrange(i, text.len() as int),
            word,
        ),
{
    let toks = char_tokens(text);
    let b = bytes.subrange(i, text.len() as int);
    if spells(toks, i, word) {
        assert forall|k: int| 0 <= k < word.len() implies b[k] == (#[trigger] word[k]) as u8 by {
            assert(toks[i + k] == seq![word[k]]);
            assert(toks[i + k][0] == text[i + k]);
        }
    }
    if bytes_begin_with(b, word) {
        assert forall|k: int| 0 <= k < word.len() implies toks[i + k] == seq![#[trigger] word[k]] by {
            let c = text[i + k];
            let w = word[k];
            assert(0x20 <= (c as int) <= 0x7e);
            lemma_ascii_byte(c);
            lemma_ascii_byte(w);
            assert(b[k] == w as u8);
            assert(bytes[i + k] == c as u8);
            assert(c as int == w as int);
            assert(toks[i + k] =~= seq![w]);
        }
    }
}

/// Appends the segments that start at byte `index` of printable ASCII text
/// and returns where the next segment starts.
#[verifier::rlimit(40)]
fn push_ascii_segments_at(
    segments: &mut Vec<TerminalTextSegment>,
    text: &str,
    bytes: &[u8],
    index: usize,
    style: TextStyleDto,
    ligatures: bool,
) -> (next: usize)
    requires
        ascii_bytes_of(text@, bytes@),
        vstd::utf8::is_ascii_chars(text@),
        index < bytes@.len(),
    ensures
        index < next <= bytes@.len(),
        segments_view(final(segments)@) + segments_from(
            char_tokens(text@),
            unit_widths(text@.len()),
            next as int,
            style.bold,
            style.italic,
            ligatures,
        ) == segments_view(old(segments)@) + segments_from(
            char_tokens(text@),
            unit_widths(text@.len()),
            index as int,
            style.bold,
            style.italic,
            ligatures,
        ),
{
    let ghost toks = char_tokens(text@);
    let ghost widths = unit_widths(text@.len());
    let ghost bold = style.bold;
    let ghost italic = style.italic;
    let n = bytes.len();
    proof {
        lemma_ascii_tokens(text@, bytes@, index as int, index as int);
    }
    let is_operator = ligatures && is_code_operator_byte(bytes[index]);
    let mut end = index + 1;
    while end < n && is_code_operator_byte(bytes[end])
        invariant
            index < end <= n,
            n == bytes@.len(),
            ascii_bytes_of(text@, bytes@),
            toks == char_tokens(text@),
            operator_run_end(toks, index as int + 1) == operator_run_end(toks, end as int),
        decreases n - end,
    {
        proof {
            lemma_ascii_tokens(text@, bytes@, end as int, end as int);
        }
        end = end + 1;
    }
    proof {
        if end < n {
            lemma_ascii_tokens(text@, bytes@, end as int, end as int);
        }
        lemma_operator_run_end(toks, index as int + 1);
        lemma_ascii_shapes_run(text@, bytes@, index as int, end as int);
    }
    let run = vstd::slice::slice_subrange(bytes, index, end);
    if is_operator && should_shape_ascii_operator_run(run) {
        proof {
            lemma_segments_from_operator_ligature(toks, widths, index as int, bold, italic);
        }
        push_ascii_shaped_segment(segments, text, index, end, style, true);
        return end;
    }
    if is_operator && end - index > 4 {
        proof {
            lemma_segments_from_operator_fill(toks, widths, index as int, bold, italic);
        }
        push_ascii_plain_run(segments, text, bytes, index, end, style);
        return end;
    }
    assert(starts_no_run(toks, index as int, ligatures));
    if ligatures {
        let rest = vstd::slice::slice_subrange(bytes, index, n);
        proof {
            lemma_ascii_ligature(text@, bytes@, index as int);
            assert(rest@ =~= bytes@.subrange(index as int, text@.len() as int));
        }
        if let Some(len) = standard_ascii_ligature_len(rest) {
            proof {
                lemma_segments_from_standard_ligature(toks, widths, index as int, len as int, bold, italic);
            }
            let lig_end = index + len;
            push_ascii_shaped_segment(segments, text, index, lig_end, style, true);
            return lig_end;
        }
    }
    proof {
        lemma_segments_from_single(toks, widths, index as int, bold, italic, ligatures);
    }
    push_ascii_plain_segment(segments, text, bytes, index, style);
    index + 1
}

/// The shaped segment of the characters `text[start..end]`, one cell each.
fn push_ascii_shaped_segment(
    segments: &mut Vec<TerminalTextSegment>,
    text: &str,
    start: usize,
    end: usize,
    style: TextStyleDto,
    ligature: bool,
)
    requires
        vstd::utf8::is_ascii_chars(text@),
        start <= end <= text@.len(),
    ensures
        segments_view(final(segments)@) == segments_view(old(segments)@).push(
            run_segment(
                char_tokens(text@),
                unit_widths(text@.len()),
                start as int,
                end as int,
                style.bold,
                style.italic,
                ligature,
            ),
        ),
{
    let piece = text.substring_ascii(start, end);
    let hash = stable_text_hash(piece);
    let count: u64 = (end - start) as u64;
    let cell_width = (count % 0x1_0000_0000) as u32;
    proof {
        lemma_char_tokens_subrange_flatten(text@, start as int, end as int);
        lemma_unit_width_total(text@.len(), start as int, end as int);
    }
    let segment = TerminalTextSegment {
        text: piece.to_owned(),
        cell_width,
        glyph_key: WgpuTerminalGlyphKey::cluster(hash, style.bold, style.italic),
        shaped: true,
        ligature,
    };
    segments.push(segment);
    proof {
        assert(segments_view(segments@) =~= segments_view(old(segments)@).push(segment@));
    }
}

/// The plain segment of the character at `index`, one cell wide.
fn push_ascii_plain_segment(
    segments: &mut Vec<TerminalTextSegment>,
    text: &str,
    bytes: &[u8],
    index: usize,
    style: TextStyleDto,
)
    requires
        ascii_bytes_of(text@, bytes@),
        vstd::utf8::is_ascii_chars(text@),
        index < text@.len(),
    ensures
        segments_view(final(segments)@) == segments_view(old(segments)@).push(
            plain_segment(text@[index as int], 1, style.bold, style.italic),
        ),
{
    let n = bytes.len();
    let piece = text.substring_ascii(index, index + 1);
    let ghost c = text@[index as int];
    proof {
        assert(0x20 <= (c as int) <= 0x7e);
        lemma_ascii_byte(c);
    }
    let character = bytes[index] as char;
    assert(character == c) by {
        assert(bytes@[index as int] as int == c as int);
    }
    let segment = TerminalTextSegment {
        text: piece.to_owned(),
        cell_width: 1,
        glyph_key: WgpuTerminalGlyphKey::styled(character, style.bold, style.italic),
        shaped: false,
        ligature: false,
    };
    assert(segment.text@ =~= seq![c]);
    segments.push(segment);
    proof {
        assert(segments_view(segments@) =~= segments_view(old(segments)@).push(segment@));
    }
}

/// One plain segment of width one per operator byte of `text[start..end]`.
fn push_ascii_plain_run(
    segments: &mut Vec<TerminalTextSegment>,
    text: &str,
    bytes: &[u8],
    start: usize,
    end: usize,
    style: TextStyleDto,
)
    requires
        ascii_bytes_of(text@, bytes@),
        vstd::utf8::is_ascii_chars(text@),
        start <= end <= text@.len(),
    ensures
        segments_view(final(segments)@) == segments_view(old(segments)@) + unit_plain_run(
            char_tokens(text@),
            start as int,
            end as int,
            style.bold,
            style.italic,
        ),
{
    let ghost toks = char_tokens(text@);
    let ghost before = segments_view(segments@);
    let mut k = start;
    while k < end
        invariant
            start <= k <= end <= text@.len(),
            ascii_bytes_of(text@, bytes@),
            vstd::utf8::is_ascii_chars(text@),
            toks == char_tokens(text@),
            segments_view(segments@) == before + unit_plain_run(
                toks,
                start as int,
                k as int,
                style.bold,
                style.italic,
            ),
        decreases end - k,
    {
        proof {
            lemma_ascii_tokens(text@, bytes@, k as int, k as int);
        }
        push_ascii_plain_segment(segments, text, bytes, k, style);
        assert(unit_plain_run(toks, start as int, k as int + 1, style.bold, style.italic)
            =~= unit_plain_run(toks, start as int, k as int, style.bold, style.italic).push(
            plain_segment(text@[k as int], 1, style.bold, style.italic),
        ));
        k = k + 1;
    }
}

/// Segments printable ASCII text character by character, each one cell wide,
/// without composing or clustering it.
fn ascii_text_segments(text: &str, style: TextStyleDto, ligatures: bool) -> (segments: Vec<
    TerminalTextSegment,
>)
    requires
        printable_ascii(text@),
    ensures
        segments_view(segments@) == segments_from(
            char_tokens(text@),
            unit_widths(text@.len()),
            0,
            style.bold,
            style.italic,
            ligatures,
        ),
{
    broadcast use vstd::string::is_ascii_spec_bytes;

    assert(vstd::utf8::is_ascii_chars(text@)) by {
        assert forall|k: int| 0 <= k < text@.len() implies '\0' <= #[trigger] text@[k] <= '\u{7f}' by {
            assert(0x20 <= (text@[k] as int) <= 0x7e);
        }
    }
    assert(vstd::string::is_ascii(text));
    let bytes = text.as_bytes();
    proof {
        assert(bytes@ =~= Seq::new(text@.len(), |i| text@.index(i) as u8));
    }
    let ghost toks = char_tokens(text@);
    let ghost widths = unit_widths(text@.len());
    let n = bytes.len();
    let mut segments: Vec<TerminalTextSegment> = Vec::new();
    let mut index: usize = 0;
    while index < n
        invariant
            n == bytes@.len(),
            ascii_bytes_of(text@, bytes@),
            vstd::utf8::is_ascii_chars(text@),
            toks == char_tokens(text@),
            widths == unit_widths(text@.len()),
            index <= n,
            segments_view(segments@) + segments_from(
                toks,
                widths,
                index as int,
                style.bold,
                style.italic,
                ligatures,
            ) == segments_from(toks, widths, 0, style.bold, style.italic, ligatures),
        decreases n - index,
    {
        index = push_ascii_segments_at(&mut segments, text, bytes, index, style, ligatures);
    }
    proof {
        lemma_segments_from_outside(toks, widths, n as int, style.bold, style.italic, ligatures);
        assert(segments_view(segments@) + Seq::<SegmentView>::empty() =~= segments_view(segments@));
    }
    segments
}

} // verus!
