use vstd::prelude::*;
use vstd::arithmetic::div_mod::{lemma_fundamental_div_mod, lemma_fundamental_div_mod_converse};
use crate::debug_font::{debug_5x7_bitmap, debug_rows};
use crate::glyph_atlas::{
    WgpuTerminalGlyphAtlas, WgpuTerminalGlyphAtlasEntry, insert_entry, keys_unique, lookup_entry,
};
use crate::glyph_key::{WgpuTerminalGlyphIdentity, WgpuTerminalGlyphKey, packed_id_of};
use crate::text_chars::{
    occurs_in_texts, sorted_text_chars, strictly_increasing, strictly_increasing_len,
};

verus! {

/// Builds a glyph atlas from the built-in 5x7 debug font: glyph cells of 5 by
/// 7 pixels, one pixel of padding, 16 cells per row.
#[derive(Debug, Clone, Copy)]
pub struct WgpuDebugGlyphAtlasBuilder {
    glyph_width_px: u32,
    glyph_height_px: u32,
    padding_px: u32,
    columns: u32,
}

/// Width of every debug atlas: one pixel of padding, then 16 cells of 6 pixels.
pub open spec fn debug_atlas_width() -> int {
    97
}

/// Height of the debug atlas of `n` glyphs: one pixel of padding, then one row
/// of 8 pixels for each 16 glyphs.
pub open spec fn debug_atlas_height(n: int) -> int {
    1 + ((n + 15) / 16) * 8
}

pub open spec fn debug_cell_x(i: int) -> int {
    1 + (i % 16) * 6
}

pub open spec fn debug_cell_y(i: int) -> int {
    1 + (i / 16) * 8
}

/// The atlas entry of the glyph at position `i` of the input.
pub open spec fn debug_entry(i: int, key: WgpuTerminalGlyphKey) -> WgpuTerminalGlyphAtlasEntry {
    WgpuTerminalGlyphAtlasEntry {
        codepoint: packed_id_of(key) as u32,
        x_px: debug_cell_x(i) as u32,
        y_px: debug_cell_y(i) as u32,
        width_px: 5,
        height_px: 7,
        advance_px: 6,
        draw_offset_x_px: 0,
        draw_offset_y_px: 0,
        draw_width_px: 5,
        draw_height_px: 7,
        is_color: false,
    }
}

/// The entry that the first `n` glyphs give `key`: that of its last position
/// among them, as long as it is a character; clusters get none.
pub open spec fn debug_expected_entry(
    glyphs: Seq<WgpuTerminalGlyphKey>,
    n: int,
    key: WgpuTerminalGlyphKey,
) -> Option<WgpuTerminalGlyphAtlasEntry>
    decreases n,
{
    if n <= 0 {
        None
    } else if glyphs[n - 1] == key && key.identity is Character {
        Some(debug_entry(n - 1, key))
    } else {
        debug_expected_entry(glyphs, n - 1, key)
    }
}

/// Whether column `col` (0 = leftmost) of a 5-pixel font row is lit.
pub open spec fn font_bit(bits: u8, col: int) -> bool {
    (bits >> ((4 - col) as u32)) & 1u8 != 0
}

/// The pixel value of column `col` of row `row` of the debug glyph of `c`.
pub open spec fn font_pixel(c: char, row: int, col: int) -> u8 {
    if font_bit(debug_rows(c)[row], col) {
        255
    } else {
        0
    }
}

/// Whether pixel `p` of an image `w` pixels wide lies in the 5x7 cell at `(x, y)`.
pub open spec fn in_glyph_cell(p: int, x: int, y: int, w: int) -> bool {
    y <= p / w < y + 7 && x <= p % w < x + 5
}

/// Pixel `p` of the debug atlas of the first `n` of `glyphs`: the font pixel of
/// the glyph whose cell holds it, or 0 in the padding, in cells of clusters and
/// in cells past the last glyph.
pub open spec fn debug_atlas_pixel(glyphs: Seq<WgpuTerminalGlyphKey>, n: int, p: int) -> u8 {
    let px = p % 97;
    let py = p / 97;
    if px >= 1 && (px - 1) % 6 < 5 && py >= 1 && (py - 1) % 8 < 7 {
        let index = ((py - 1) / 8) * 16 + (px - 1) / 6;
        if index < n && glyphs[index].identity is Character {
            font_pixel(glyphs[index].identity->Character_0, (py - 1) % 8, (px - 1) % 6)
        } else {
            0
        }
    } else {
        0
    }
}

/// The unstyled glyph key of each character.
pub open spec fn plain_keys(chars: Seq<char>) -> Seq<WgpuTerminalGlyphKey> {
    Seq::new(chars.len(), |i: int| plain_key(chars[i]))
}

/// The unstyled glyph key of `c`.
pub open spec fn plain_key(c: char) -> WgpuTerminalGlyphKey {
    WgpuTerminalGlyphKey {
        identity: WgpuTerminalGlyphIdentity::Character(c),
        bold: false,
        italic: false,
    }
}

fn plain_keys_of(chars: &[char]) -> (keys: Vec<WgpuTerminalGlyphKey>)
    ensures
        keys@ == plain_keys(chars@),
{
    let mut keys: Vec<WgpuTerminalGlyphKey> = Vec::new();
    let mut i: usize = 0;
    while i < chars.len()
        invariant
            i <= chars@.len(),
            keys@.len() == i,
            forall|j: int| 0 <= j < i ==> #[trigger] keys@[j] == plain_keys(chars@)[j],
        decreases chars@.len() - i,
    {
        keys.push(WgpuTerminalGlyphKey::plain(chars[i]));
        i = i + 1;
    }
    assert(keys@ =~= plain_keys(chars@));
    keys
}

/// What `build_for_glyphs` produces for `glyphs`.
pub open spec fn is_debug_atlas_of(atlas: WgpuTerminalGlyphAtlas, glyphs: Seq<WgpuTerminalGlyphKey>) -> bool {
    let n = glyphs.len() as int;
    if n == 0 {
        &&& atlas.width_px == 0
        &&& atlas.height_px == 0
        &&& atlas.pixels@.len() == 0
        &&& atlas.entries@.len() == 0
    } else {
        &&& atlas.width_px == debug_atlas_width()
        &&& atlas.height_px == debug_atlas_height(n)
        &&& atlas.pixels@.len() == debug_atlas_width() * debug_atlas_height(n)
        &&& forall|p: int|
            0 <= p < atlas.pixels@.len() ==> atlas.pixels@[p] == #[trigger] debug_atlas_pixel(
                glyphs,
                n,
                p,
            )
        &&& keys_unique(atlas.entries@)
        &&& forall|k: WgpuTerminalGlyphKey|
            #[trigger] lookup_entry(atlas.entries@, k) == debug_expected_entry(glyphs, n, k)
    }
}

proof fn lemma_cell_offset(w: int, row: int, col: int, p: int)
    requires
        w > 0,
        0 <= col < w,
        row >= 0,
        p >= 0,
    ensures
        (p == row * w + col) <==> (p / w == row && p % w == col),
{
    if p == row * w + col {
        lemma_fundamental_div_mod_converse(p, w, row, col);
    }
    if p / w == row && p % w == col {
        lemma_fundamental_div_mod(p, w);
        assert(p == w * row + col);
        assert(w * row == row * w) by (nonlinear_arith);
    }
}

/// Pixel `p` of the atlas lies in the cell of glyph `i` exactly when the
/// atlas-wide formula names glyph `i` for it, at the same row and column.
proof fn lemma_debug_cell(i: int, p: int)
    requires
        0 <= i,
        0 <= p,
    ensures
        in_glyph_cell(p, debug_cell_x(i), debug_cell_y(i), 97) <==> ({
            let px = p % 97;
            let py = p / 97;
            &&& px >= 1 && (px - 1) % 6 < 5 && py >= 1 && (py - 1) % 8 < 7
            &&& ((py - 1) / 8) * 16 + (px - 1) / 6 == i
        }),
        in_glyph_cell(p, debug_cell_x(i), debug_cell_y(i), 97) ==> (p / 97 - debug_cell_y(i) == (
        p / 97 - 1) % 8 && p % 97 - debug_cell_x(i) == (p % 97 - 1) % 6),
{
    let px = p % 97;
    let py = p / 97;
    let a = i / 16;
    let b = i % 16;
    lemma_fundamental_div_mod(i, 16);
    assert(0 <= b < 16);
    assert(0 <= px < 97);
    assert(py >= 0);
    if in_glyph_cell(p, debug_cell_x(i), debug_cell_y(i), 97) {
        let col = px - 1 - b * 6;
        let row = py - 1 - a * 8;
        assert(0 <= col < 5);
        assert(0 <= row < 7);
        lemma_fundamental_div_mod_converse(px - 1, 6, b, col);
        lemma_fundamental_div_mod_converse(py - 1, 8, a, row);
        assert(i == a * 16 + b);
    }
    if px >= 1 && (px - 1) % 6 < 5 && py >= 1 && (py - 1) % 8 < 7 && ((py - 1) / 8) * 16 + (px - 1)
        / 6 == i {
        let qa = (py - 1) / 8;
        let qb = (px - 1) / 6;
        lemma_fundamental_div_mod(px - 1, 6);
        lemma_fundamental_div_mod(py - 1, 8);
        assert(0 <= qb <= 15);
        assert(qa >= 0);
        lemma_fundamental_div_mod_converse(i, 16, qa, qb);
        assert(qa == a && qb == b);
    }
}

impl WgpuDebugGlyphAtlasBuilder {
    #[verifier::type_invariant]
    spec fn fixed_font(self) -> bool {
        &&& self.glyph_width_px == 5
        &&& self.glyph_height_px == 7
        &&& self.padding_px == 1
        &&& self.columns == 16
    }

    /// The width of a glyph cell, in pixels.
    pub closed spec fn spec_glyph_width_px(self) -> u32 {
        self.glyph_width_px
    }

    /// The height of a glyph cell, in pixels.
    pub closed spec fn spec_glyph_height_px(self) -> u32 {
        self.glyph_height_px
    }

    /// The padding around and between glyph cells, in pixels.
    pub closed spec fn spec_padding_px(self) -> u32 {
        self.padding_px
    }

    /// How many glyph cells a row of the atlas holds.
    pub closed spec fn spec_columns(self) -> u32 {
        self.columns
    }

    /// A builder for the 5x7 debug font: cells of 5 by 7 pixels, one pixel
    /// of padding, 16 cells per row.
    pub fn new() -> (builder: Self)
        ensures
            builder.spec_glyph_width_px() == 5,
            builder.spec_glyph_height_px() == 7,
            builder.spec_padding_px() == 1,
            builder.spec_columns() == 16,
    {
        WgpuDebugGlyphAtlasBuilder { glyph_width_px: 5, glyph_height_px: 7, padding_px: 1, columns: 16 }
    }

    /// Writes the debug glyph of `c` into the 5x7 cell at `(x_px, y_px)` of an
    /// image `atlas_width_px` pixels wide, and leaves every other pixel alone.
    fn write_glyph_pixels(
        &self,
        c: char,
        x_px: u32,
        y_px: u32,
        atlas_width_px: u32,
        pixels: &mut Vec<u8>,
    )
        requires
            x_px + 5 <= atlas_width_px,
            (y_px + 7) * atlas_width_px <= old(pixels)@.len(),
            (y_px + 7) * atlas_width_px <= u32::MAX,
        ensures
            final(pixels)@.len() == old(pixels)@.len(),
            forall|p: int|
                0 <= p < old(pixels)@.len() ==> #[trigger] final(pixels)@[p] == if in_glyph_cell(
                    p,
                    x_px as int,
                    y_px as int,
                    atlas_width_px as int,
                ) {
                    font_pixel(c, p / (atlas_width_px as int) - y_px, p % (atlas_width_px as int) - x_px)
                } else {
                    old(pixels)@[p]
                },
    {
        proof {
            use_type_invariant(self);
        }
        let bitmap = debug_5x7_bitmap(c);
        assert(y_px + 7 <= u32::MAX) by (nonlinear_arith)
            requires
                (y_px + 7) * atlas_width_px <= u32::MAX,
                atlas_width_px >= 5,
        ;
        let ghost w = atlas_width_px as int;
        let ghost x = x_px as int;
        let ghost y = y_px as int;
        let ghost start = pixels@;
        let mut row: u32 = 0;
        while row < self.glyph_height_px
            invariant
                self.glyph_height_px == 7,
                self.glyph_width_px == 5,
                0 <= row <= 7,
                w == atlas_width_px,
                x == x_px,
                y == y_px,
                x + 5 <= w,
                (y + 7) * w <= start.len(),
                (y + 7) * w <= u32::MAX,
                y + 7 <= u32::MAX,
                bitmap@ == debug_rows(c),
                pixels@.len() == start.len(),
                forall|p: int|
                    0 <= p < start.len() ==> #[trigger] pixels@[p] == if in_glyph_cell(p, x, y, w)
                        && p / w < y + row {
                        font_pixel(c, p / w - y, p % w - x)
                    } else {
                        start[p]
                    },
            decreases 7 - row,
        {
            let bits = bitmap[row as usize];
            let mut col: u32 = 0;
            while col < self.glyph_width_px
                invariant
                    self.glyph_height_px == 7,
                    self.glyph_width_px == 5,
                    0 <= row < 7,
                    0 <= col <= 5,
                    w == atlas_width_px,
                    x == x_px,
                    y == y_px,
                    x + 5 <= w,
                    (y + 7) * w <= start.len(),
                    (y + 7) * w <= u32::MAX,
                    y + 7 <= u32::MAX,
                    bitmap@ == debug_rows(c),
                    bits == debug_rows(c)[row as int],
                    pixels@.len() == start.len(),
                    forall|p: int|
                        0 <= p < start.len() ==> #[trigger] pixels@[p] == if in_glyph_cell(p, x, y, w)
                            && (p / w < y + row || (p / w == y + row && p % w < x + col)) {
                            font_pixel(c, p / w - y, p % w - x)
                        } else {
                            start[p]
                        },
                decreases 5 - col,
            {
                let bit_index: u32 = self.glyph_width_px - 1 - col;
                let enabled = ((bits >> bit_index) & 1) != 0;
                let px: u32 = x_px + col;
                let py: u32 = y_px + row;
                assert(py * w <= (y + 6) * w) by (nonlinear_arith)
                    requires
                        0 <= py <= y + 6,
                        w >= 0,
                ;
                assert((y + 6) * w + w == (y + 7) * w) by (nonlinear_arith);
                assert(py * atlas_width_px + px < (y + 7) * w);
                let offset: u32 = py * atlas_width_px + px;
                let value: u8 = if enabled {
                    255
                } else {
                    0
                };
                let ghost before = pixels@;
                pixels.set(offset as usize, value);
                proof {
                    assert forall|p: int| 0 <= p < start.len() implies #[trigger] pixels@[p] == if in_glyph_cell(
                        p,
                        x,
                        y,
                        w,
                    ) && (p / w < y + row || (p / w == y + row && p % w < x + col + 1)) {
                        font_pixel(c, p / w - y, p % w - x)
                    } else {
                        start[p]
                    } by {
                        lemma_cell_offset(w, py as int, px as int, p);
                        if p == offset {
                            assert(font_pixel(c, p / w - y, p % w - x) == value);
                        }
                    }
                }
                col = col + 1;
            }
            row = row + 1;
        }
    }

    /// Builds the debug atlas of `glyphs`: glyph `i` takes the cell in column
    /// `i % 16` and row `i / 16`; a key given twice keeps the entry of its last
    /// position; clusters take a cell but get neither pixels nor an entry.
    pub fn build_for_glyphs(&self, glyphs: &[WgpuTerminalGlyphKey]) -> (atlas: WgpuTerminalGlyphAtlas)
        requires
            97 * debug_atlas_height(glyphs@.len() as int) <= u32::MAX,
        ensures
            is_debug_atlas_of(atlas, glyphs@),
    {
        proof {
            use_type_invariant(self);
        }
        if glyphs.len() == 0 {
            return WgpuTerminalGlyphAtlas::empty();
        }
        let ghost n = glyphs@.len() as int;
        let count: u32 = glyphs.len() as u32;
        let cell_width: u32 = self.glyph_width_px + self.padding_px;
        let cell_height: u32 = self.glyph_height_px + self.padding_px;
        let row_count: u32 = count / self.columns + if count % self.columns == 0 {
            0
        } else {
            1
        };
        assert(row_count == (n + 15) / 16);
        let atlas_width: u32 = self.padding_px + self.columns * cell_width;
        assert(row_count * 8 <= u32::MAX) by (nonlinear_arith)
            requires
                97 * (1 + row_count * 8) <= u32::MAX,
        ;
        let atlas_height: u32 = self.padding_px + row_count * cell_height;
        assert(atlas_width * atlas_height <= u32::MAX);
        let pixel_len: u32 = atlas_width * atlas_height;
        let mut pixels: Vec<u8> = Vec::new();
        let mut k: u32 = 0;
        while k < pixel_len
            invariant
                k <= pixel_len,
                pixels@.len() == k,
                forall|p: int| 0 <= p < k ==> pixels@[p] == 0,
            decreases pixel_len - k,
        {
            pixels.push(0);
            k = k + 1;
        }
        let mut entries: Vec<(WgpuTerminalGlyphKey, WgpuTerminalGlyphAtlasEntry)> = Vec::new();
        let mut index: usize = 0;
        while index < glyphs.len()
            invariant
                self.glyph_width_px == 5,
                self.glyph_height_px == 7,
                self.padding_px == 1,
                self.columns == 16,
                n == glyphs@.len(),
                n >= 1,
                0 <= index <= n,
                atlas_width == 97,
                cell_width == 6,
                cell_height == 8,
                atlas_height == debug_atlas_height(n),
                97 * debug_atlas_height(n) <= u32::MAX,
                pixels@.len() == 97 * debug_atlas_height(n),
                forall|p: int|
                    0 <= p < pixels@.len() ==> pixels@[p] == #[trigger] debug_atlas_pixel(
                        glyphs@,
                        index as int,
                        p,
                    ),
                keys_unique(entries@),
                forall|k: WgpuTerminalGlyphKey|
                    #[trigger] lookup_entry(entries@, k) == debug_expected_entry(
                        glyphs@,
                        index as int,
                        k,
                    ),
            decreases n - index,
        {
            let i: u32 = index as u32;
            let col: u32 = i % self.columns;
            let row: u32 = i / self.columns;
            let x: u32 = self.padding_px + col * cell_width;
            let y: u32 = self.padding_px + row * cell_height;
            let glyph = glyphs[index];
            assert(y + 7 <= debug_atlas_height(n)) by (nonlinear_arith)
                requires
                    y == 1 + (i / 16) * 8,
                    i < n,
                    n >= 1,
                    debug_atlas_height(n) == 1 + ((n + 15) / 16) * 8,
            ;
            assert((y + 7) * 97 <= 97 * debug_atlas_height(n)) by (nonlinear_arith)
                requires
                    y + 7 <= debug_atlas_height(n),
            ;
            let ghost before = pixels@;
            match glyph.character() {
                Some(character) => {
                    self.write_glyph_pixels(character, x, y, atlas_width, &mut pixels);
                    let entry = WgpuTerminalGlyphAtlasEntry {
                        codepoint: glyph.packed_id(),
                        x_px: x,
                        y_px: y,
                        width_px: self.glyph_width_px,
                        height_px: self.glyph_height_px,
                        advance_px: (self.glyph_width_px + 1) as i32,
                        draw_offset_x_px: 0,
                        draw_offset_y_px: 0,
                        draw_width_px: self.glyph_width_px,
                        draw_height_px: self.glyph_height_px,
                        is_color: false,
                    };
                    assert(entry == debug_entry(index as int, glyph));
                    insert_entry(&mut entries, glyph, entry);
                },
                None => {},
            }
            proof {
                assert forall|p: int| 0 <= p < pixels@.len() implies pixels@[p] == #[trigger] debug_atlas_pixel(
                    glyphs@,
                    index as int + 1,
                    p,
                ) by {
                    lemma_debug_cell(index as int, p);
                    assert(before[p] == debug_atlas_pixel(glyphs@, index as int, p));
                }
                assert forall|k: WgpuTerminalGlyphKey| #[trigger] lookup_entry(entries@, k)
                    == debug_expected_entry(glyphs@, index as int + 1, k) by {
                }
            }
            index = index + 1;
        }
        WgpuTerminalGlyphAtlas { width_px: atlas_width, height_px: atlas_height, pixels, entries }
    }
}

impl WgpuDebugGlyphAtlasBuilder {
    /// Builds the debug atlas of the unstyled glyphs of `chars`, in order.
    pub fn build_for_chars(&self, chars: &[char]) -> (atlas: WgpuTerminalGlyphAtlas)
        requires
            97 * debug_atlas_height(chars@.len() as int) <= u32::MAX,
        ensures
            is_debug_atlas_of(atlas, plain_keys(chars@)),
    {
        let keys = plain_keys_of(chars);
        assert(keys@.len() == chars@.len());
        self.build_for_glyphs(keys.as_slice())
    }

    /// Builds the debug atlas of the unstyled glyphs of the distinct characters
    /// of `texts`, in code point order.
    pub fn build_for_texts(&self, texts: &[&str]) -> (atlas: WgpuTerminalGlyphAtlas)
        ensures
            exists|chars: Seq<char>|
                {
                    &&& strictly_increasing(chars)
                    &&& forall|c: char| chars.contains(c) <==> occurs_in_texts(texts@, c)
                    &&& is_debug_atlas_of(atlas, plain_keys(chars))
                },
    {
        let chars = sorted_text_chars(texts);
        let count = strictly_increasing_len(&chars);
        proof {
            let n = chars@.len() as int;
            assert(debug_atlas_height(n) <= 1 + 0x11000 * 8);
        }
        let atlas = self.build_for_chars(chars.as_slice());
        assert(is_debug_atlas_of(atlas, plain_keys(chars@)));
        atlas
    }
}

impl Default for WgpuDebugGlyphAtlasBuilder {
    fn default() -> (builder: Self) {
        Self::new()
    }
}

} // verus!
