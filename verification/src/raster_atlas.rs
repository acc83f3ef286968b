use vstd::prelude::*;
use vstd::arithmetic::div_mod::{lemma_fundamental_div_mod, lemma_fundamental_div_mod_converse};
use crate::atlas_layout::{
    GlyphAtlasGridLayout, grid_layout_spec, lemma_grid_layout_extent, lemma_grid_layout_holds_capacity,
    max_int, min_int,
};
use crate::glyph_atlas::{
    WgpuTerminalGlyphAtlas, WgpuTerminalGlyphAtlasEntry, insert_entry, keys_unique, lookup_entry,
};
use crate::glyph_key::{WgpuTerminalGlyphKey, packed_id_of};

verus! {

/// A glyph bitmap as a font rasterizer produced it: RGBA pixels of
/// `width_px` by `height_px`, bearings, advance, and how many terminal cells
/// the glyph spans.
#[derive(Debug, Clone, PartialEq, Eq)]
pub struct RasterizedTerminalGlyph {
    pub key: WgpuTerminalGlyphKey,
    pub cell_width: u32,
    pub width_px: u32,
    pub height_px: u32,
    pub left_px: i32,
    pub top_px: i32,
    pub advance_px: i32,
    pub pixels: Vec<u8>,
    pub is_color: bool,
    pub direct_draw_offset: Option<(i32, i32)>,
}

/// The plain values of a rasterized glyph.
pub struct RasterizedGlyphView {
    pub key: WgpuTerminalGlyphKey,
    pub cell_width: u32,
    pub width_px: u32,
    pub height_px: u32,
    pub left_px: i32,
    pub top_px: i32,
    pub advance_px: i32,
    pub pixels: Seq<u8>,
    pub is_color: bool,
    pub direct_draw_offset: Option<(i32, i32)>,
}

impl View for RasterizedTerminalGlyph {
    type V = RasterizedGlyphView;

    open spec fn view(&self) -> RasterizedGlyphView {
        RasterizedGlyphView {
            key: self.key,
            cell_width: self.cell_width,
            width_px: self.width_px,
            height_px: self.height_px,
            left_px: self.left_px,
            top_px: self.top_px,
            advance_px: self.advance_px,
            pixels: self.pixels@,
            is_color: self.is_color,
            direct_draw_offset: self.direct_draw_offset,
        }
    }
}

pub open spec fn views(glyphs: Seq<RasterizedTerminalGlyph>) -> Seq<RasterizedGlyphView> {
    glyphs.map_values(|g: RasterizedTerminalGlyph| g@)
}

/// The width that a glyph takes in the atlas: its bitmap width, at least 1.
pub open spec fn bitmap_width(g: RasterizedGlyphView) -> int {
    max_int(g.width_px as int, 1)
}

pub open spec fn bitmap_height(g: RasterizedGlyphView) -> int {
    max_int(g.height_px as int, 1)
}

/// A glyph whose bitmap is larger than `max_bitmap_dimension` on a side is
/// replaced by an empty 1x1 bitmap drawn at the cell origin.
pub open spec fn sanitized(g: RasterizedGlyphView, max_bitmap_dimension: int) -> RasterizedGlyphView {
    if bitmap_width(g) <= max_bitmap_dimension && bitmap_height(g) <= max_bitmap_dimension {
        g
    } else {
        RasterizedGlyphView {
            key: g.key,
            cell_width: g.cell_width,
            width_px: 1,
            height_px: 1,
            left_px: 0,
            top_px: 0,
            advance_px: g.advance_px,
            pixels: seq![0u8, 0u8, 0u8, 0u8],
            is_color: false,
            direct_draw_offset: None,
        }
    }
}

pub open spec fn sanitized_all(glyphs: Seq<RasterizedGlyphView>, max_bitmap_dimension: int) -> Seq<
    RasterizedGlyphView,
> {
    glyphs.map_values(|g: RasterizedGlyphView| sanitized(g, max_bitmap_dimension))
}

/// The widest bitmap among `glyphs` (1 for none).
pub open spec fn max_bitmap_width(glyphs: Seq<RasterizedGlyphView>) -> int
    decreases glyphs.len(),
{
    if glyphs.len() == 0 {
        1
    } else {
        max_int(bitmap_width(glyphs.last()), max_bitmap_width(glyphs.drop_last()))
    }
}

pub open spec fn max_bitmap_height(glyphs: Seq<RasterizedGlyphView>) -> int
    decreases glyphs.len(),
{
    if glyphs.len() == 0 {
        1
    } else {
        max_int(bitmap_height(glyphs.last()), max_bitmap_height(glyphs.drop_last()))
    }
}

/// Width of the terminal cells a glyph spans.
pub open spec fn terminal_width(g: RasterizedGlyphView, base_cell_width: u32) -> int {
    (base_cell_width as i32 as int) * (max_int(g.cell_width as int, 1) as u32 as i32 as int)
}

/// Where a glyph bitmap is drawn relative to its cell: the rasterizer's own
/// offset when it gave one; else the left bearing and the baseline minus the
/// top bearing, with a color glyph narrower than its cells centred instead.
pub open spec fn draw_offset(g: RasterizedGlyphView, base_cell_width: u32, baseline_y_px: i32) -> (
    int,
    int,
) {
    match g.direct_draw_offset {
        Some(offset) => (offset.0 as int, offset.1 as int),
        None => {
            let tw = terminal_width(g, base_cell_width);
            let w = g.width_px as i32 as int;
            let x = if g.is_color && w < tw {
                (tw - w) / 2
            } else {
                g.left_px as int
            };
            (x, baseline_y_px - g.top_px)
        },
    }
}

/// The draw offset of `g` stays within `i32`.
pub open spec fn draw_offset_in_range(g: RasterizedGlyphView, base_cell_width: u32, baseline_y_px: i32) -> bool {
    g.direct_draw_offset is None ==> {
        let tw = terminal_width(g, base_cell_width);
        &&& i32::MIN <= tw <= i32::MAX
        &&& i32::MIN <= baseline_y_px - g.top_px <= i32::MAX
        &&& (g.is_color ==> i32::MIN <= tw - (g.width_px as i32 as int) <= i32::MAX)
    }
}

/// The offset at which a glyph bitmap is drawn relative to its cell.
pub fn terminal_glyph_draw_offset(
    glyph: &RasterizedTerminalGlyph,
    base_cell_width: u32,
    baseline_y_px: i32,
) -> (offset: (i32, i32))
    requires
        draw_offset_in_range(glyph@, base_cell_width, baseline_y_px),
    ensures
        (offset.0 as int, offset.1 as int) == draw_offset(glyph@, base_cell_width, baseline_y_px),
{
    if let Some(offset) = glyph.direct_draw_offset {
        return offset;
    }
    let cells: u32 = if glyph.cell_width > 1 {
        glyph.cell_width
    } else {
        1
    };
    let terminal_width: i32 = (base_cell_width as i32) * (cells as i32);
    let draw_x: i32 = glyph.left_px;
    let draw_y: i32 = baseline_y_px - glyph.top_px;
    let width: i32 = glyph.width_px as i32;
    let draw_x: i32 = if glyph.is_color && width < terminal_width {
        (terminal_width - width) / 2
    } else {
        draw_x
    };
    (draw_x, draw_y)
}

/// Byte `p` of an RGBA image `atlas_width` pixels wide after the bitmap of `g`
/// is copied to `(cell_x, cell_y)`: the bitmap byte for it where both the
/// source pixel and the destination pixel exist, and `before` elsewhere.
pub open spec fn tight_pixel(
    g: RasterizedGlyphView,
    cell_x: int,
    cell_y: int,
    atlas_width: int,
    len: int,
    before: u8,
    p: int,
) -> u8 {
    let q = p / 4;
    let x = q % atlas_width;
    let y = q / atlas_width;
    let src = ((y - cell_y) * g.width_px + (x - cell_x)) * 4;
    if g.width_px > 0 && g.height_px > 0 && g.pixels.len() > 0 && cell_x <= x < cell_x + g.width_px
        && cell_y <= y < cell_y + g.height_px && src + 3 < g.pixels.len() && 4 * q + 3 < len {
        g.pixels[src + p % 4]
    } else {
        before
    }
}

proof fn lemma_pixel_position(w: int, x: int, y: int, q: int)
    requires
        w > 0,
        0 <= x < w,
        y >= 0,
        q >= 0,
    ensures
        (q == y * w + x) <==> (q / w == y && q % w == x),
{
    if q == y * w + x {
        lemma_fundamental_div_mod_converse(q, w, y, x);
    }
    if q / w == y && q % w == x {
        lemma_fundamental_div_mod(q, w);
        assert(w * y == y * w) by (nonlinear_arith);
    }
}

proof fn lemma_byte_of_pixel(q: int, p: int)
    requires
        q >= 0,
        p >= 0,
    ensures
        (4 * q <= p < 4 * q + 4) <==> (p / 4 == q),
        p / 4 == q ==> p == 4 * q + p % 4,
{
    lemma_fundamental_div_mod(p, 4);
}

/// Copies the bitmap of `glyph` unscaled into an RGBA image `atlas_width`
/// pixels wide at `(cell_x, cell_y)`, skipping pixels that either side lacks.
pub fn write_crossfont_glyph_pixels_tight(
    glyph: &RasterizedTerminalGlyph,
    cell_x: u32,
    cell_y: u32,
    atlas_width: u32,
    pixels: &mut Vec<u8>,
)
    requires
        atlas_width > 0,
        cell_x + glyph.width_px <= atlas_width,
        (cell_y + glyph.height_px) * atlas_width * 4 <= u32::MAX,
        glyph.height_px * glyph.width_px * 4 <= u32::MAX,
    ensures
        final(pixels)@.len() == old(pixels)@.len(),
        forall|p: int|
            0 <= p < old(pixels)@.len() ==> #[trigger] final(pixels)@[p] == tight_pixel(
                glyph@,
                cell_x as int,
                cell_y as int,
                atlas_width as int,
                old(pixels)@.len() as int,
                old(pixels)@[p],
                p,
            ),
{
    if glyph.width_px == 0 || glyph.height_px == 0 || glyph.pixels.len() == 0 {
        return;
    }
    let ghost g = glyph@;
    let ghost start = pixels@;
    let ghost len = start.len() as int;
    let ghost w = atlas_width as int;
    let ghost cx = cell_x as int;
    let ghost cy = cell_y as int;
    let ghost gw = glyph.width_px as int;
    let ghost gh = glyph.height_px as int;
    assert(cell_y + glyph.height_px <= u32::MAX) by (nonlinear_arith)
        requires
            (cell_y + glyph.height_px) * atlas_width * 4 <= u32::MAX,
            atlas_width >= 1,
    ;
    let mut src_y: u32 = 0;
    while src_y < glyph.height_px
        invariant
            glyph@ == g,
            gw == glyph.width_px,
            gh == glyph.height_px,
            gw > 0 && gh > 0 && g.pixels.len() > 0,
            0 <= src_y <= gh,
            w == atlas_width,
            w > 0,
            cx == cell_x,
            cy == cell_y,
            cx + gw <= w,
            cy + gh <= u32::MAX,
            (cy + gh) * w * 4 <= u32::MAX,
            gh * gw * 4 <= u32::MAX,
            len == start.len(),
            pixels@.len() == len,
            forall|p: int|
                0 <= p < len ==> #[trigger] pixels@[p] == if (p / 4) / w < cy + src_y {
                    tight_pixel(g, cx, cy, w, len, start[p], p)
                } else {
                    start[p]
                },
        decreases gh - src_y,
    {
        let mut src_x: u32 = 0;
        while src_x < glyph.width_px
            invariant
                glyph@ == g,
                gw == glyph.width_px,
                gh == glyph.height_px,
                gw > 0 && gh > 0 && g.pixels.len() > 0,
                0 <= src_y < gh,
                0 <= src_x <= gw,
                w == atlas_width,
                w > 0,
                cx == cell_x,
                cy == cell_y,
                cx + gw <= w,
                cy + gh <= u32::MAX,
                (cy + gh) * w * 4 <= u32::MAX,
                gh * gw * 4 <= u32::MAX,
                len == start.len(),
                pixels@.len() == len,
                forall|p: int|
                    0 <= p < len ==> #[trigger] pixels@[p] == if (p / 4) / w < cy + src_y || ((p / 4)
                        / w == cy + src_y && (p / 4) % w < cx + src_x) {
                        tight_pixel(g, cx, cy, w, len, start[p], p)
                    } else {
                        start[p]
                    },
            decreases gw - src_x,
        {
            let dst_x: u32 = cell_x + src_x;
            let dst_y: u32 = cell_y + src_y;
            assert(src_y * gw + src_x < gh * gw) by (nonlinear_arith)
                requires
                    src_y < gh,
                    src_x < gw,
            ;
            let src_index_u32: u32 = (src_y * glyph.width_px + src_x) * 4;
            assert(dst_y * w + dst_x < (cy + gh) * w) by (nonlinear_arith)
                requires
                    dst_y < cy + gh,
                    dst_x < w,
                    dst_y >= 0,
            ;
            let dst_index_u32: u32 = (dst_y * atlas_width + dst_x) * 4;
            let src_index: usize = src_index_u32 as usize;
            let dst_index: usize = dst_index_u32 as usize;
            let ghost q = dst_y * w + dst_x;
            let ghost before = pixels@;
            if src_index + 3 < glyph.pixels.len() && dst_index + 3 < pixels.len() {
                pixels.set(dst_index, glyph.pixels[src_index]);
                pixels.set(dst_index + 1, glyph.pixels[src_index + 1]);
                pixels.set(dst_index + 2, glyph.pixels[src_index + 2]);
                pixels.set(dst_index + 3, glyph.pixels[src_index + 3]);
            }
            proof {
                assert forall|p: int| 0 <= p < len implies #[trigger] pixels@[p] == if (p / 4) / w < cy
                    + src_y || ((p / 4) / w == cy + src_y && (p / 4) % w < cx + src_x + 1) {
                    tight_pixel(g, cx, cy, w, len, start[p], p)
                } else {
                    start[p]
                } by {
                    lemma_pixel_position(w, dst_x as int, dst_y as int, p / 4);
                    lemma_byte_of_pixel(q, p);
                    assert(before[p] == if (p / 4) / w < cy + src_y || ((p / 4) / w == cy + src_y && (p
                        / 4) % w < cx + src_x) {
                        tight_pixel(g, cx, cy, w, len, start[p], p)
                    } else {
                        start[p]
                    });
                }
            }
            src_x = src_x + 1;
        }
        src_y = src_y + 1;
    }
}

/// The texture limit the atlas builder works with: the device limit, at least
/// 1 and at most 4096.
pub open spec fn clamped_texture_limit(max_texture_dimension_2d: u32) -> int {
    min_int(max_int(max_texture_dimension_2d as int, 1), 4096)
}

/// The padding the atlas builder works with: at most one less than the limit.
pub open spec fn clamped_padding(padding_px: u32, max_texture_dimension_2d: u32) -> int {
    min_int(padding_px as int, clamped_texture_limit(max_texture_dimension_2d) - 1)
}

/// The largest bitmap side the atlas admits: the limit less padding on both
/// sides, at least 1.
pub open spec fn max_bitmap_side(padding_px: u32, max_texture_dimension_2d: u32) -> int {
    max_int(
        clamped_texture_limit(max_texture_dimension_2d) - 2 * clamped_padding(
            padding_px,
            max_texture_dimension_2d,
        ),
        1,
    )
}

/// The atlas parameters that the builder derives from its inputs.
pub struct RasterAtlasPlan {
    pub glyphs: Seq<RasterizedGlyphView>,
    pub padding: int,
    pub stride_width: int,
    pub stride_height: int,
    pub layout: GlyphAtlasGridLayout,
}

pub open spec fn raster_atlas_plan(
    glyphs: Seq<RasterizedGlyphView>,
    padding_px: u32,
    columns: u32,
    max_texture_dimension_2d: u32,
) -> RasterAtlasPlan {
    let limit = clamped_texture_limit(max_texture_dimension_2d);
    let padding = clamped_padding(padding_px, max_texture_dimension_2d);
    let kept = sanitized_all(glyphs, max_bitmap_side(padding_px, max_texture_dimension_2d));
    let stride_width = max_bitmap_width(kept) + padding;
    let stride_height = max_bitmap_height(kept) + padding;
    RasterAtlasPlan {
        glyphs: kept,
        padding,
        stride_width,
        stride_height,
        layout: grid_layout_spec(glyphs.len() as int, columns as int, stride_width, stride_height, padding, limit),
    }
}

/// The atlas entry of the glyph at position `i`.
pub open spec fn raster_entry(
    plan: RasterAtlasPlan,
    i: int,
    base_cell_width: u32,
    baseline_y_px: i32,
) -> WgpuTerminalGlyphAtlasEntry {
    let g = plan.glyphs[i];
    let offset = draw_offset(g, base_cell_width, baseline_y_px);
    WgpuTerminalGlyphAtlasEntry {
        codepoint: packed_id_of(g.key) as u32,
        x_px: (plan.padding + (i % plan.layout.columns as int) * plan.stride_width) as u32,
        y_px: (plan.padding + (i / plan.layout.columns as int) * plan.stride_height) as u32,
        width_px: bitmap_width(g) as u32,
        height_px: bitmap_height(g) as u32,
        advance_px: g.advance_px,
        draw_offset_x_px: offset.0 as i32,
        draw_offset_y_px: offset.1 as i32,
        draw_width_px: bitmap_width(g) as u32,
        draw_height_px: bitmap_height(g) as u32,
        is_color: g.is_color,
    }
}

/// The entry that the first `n` placed glyphs give `key`: that of its last
/// position among them.
pub open spec fn raster_expected_entry(
    plan: RasterAtlasPlan,
    n: int,
    key: WgpuTerminalGlyphKey,
    base_cell_width: u32,
    baseline_y_px: i32,
) -> Option<WgpuTerminalGlyphAtlasEntry>
    decreases n,
{
    if n <= 0 {
        None
    } else if plan.glyphs[n - 1].key == key {
        Some(raster_entry(plan, n - 1, base_cell_width, baseline_y_px))
    } else {
        raster_expected_entry(plan, n - 1, key, base_cell_width, baseline_y_px)
    }
}

/// Byte `p` of the atlas once the first `n` placed glyphs are drawn: the byte
/// of the bitmap of the glyph whose cell holds it, where that bitmap has it,
/// and 0 elsewhere.
pub open spec fn raster_atlas_byte(plan: RasterAtlasPlan, n: int, p: int) -> u8 {
    let q = p / 4;
    let x = q % (plan.layout.atlas_width as int);
    let y = q / (plan.layout.atlas_width as int);
    if x >= plan.padding && y >= plan.padding {
        let col = (x - plan.padding) / plan.stride_width;
        let ox = (x - plan.padding) % plan.stride_width;
        let row = (y - plan.padding) / plan.stride_height;
        let oy = (y - plan.padding) % plan.stride_height;
        let index = row * (plan.layout.columns as int) + col;
        if index < n {
            let g = plan.glyphs[index];
            let src = (oy * g.width_px + ox) * 4;
            if g.width_px > 0 && g.height_px > 0 && g.pixels.len() > 0 && ox < g.width_px && oy
                < g.height_px && src + 3 < g.pixels.len() {
                g.pixels[src + p % 4]
            } else {
                0
            }
        } else {
            0
        }
    } else {
        0
    }
}

/// What `build_atlas_from_rasterized_glyphs` produces.
pub open spec fn is_raster_atlas_of(
    atlas: WgpuTerminalGlyphAtlas,
    glyphs: Seq<RasterizedGlyphView>,
    base_cell_width: u32,
    baseline_y_px: i32,
    padding_px: u32,
    columns: u32,
    max_texture_dimension_2d: u32,
) -> bool {
    if glyphs.len() == 0 {
        &&& atlas.width_px == 0
        &&& atlas.height_px == 0
        &&& atlas.pixels@.len() == 0
        &&& atlas.entries@.len() == 0
    } else {
        let plan = raster_atlas_plan(glyphs, padding_px, columns, max_texture_dimension_2d);
        let n = plan.layout.glyph_capacity as int;
        &&& atlas.width_px == plan.layout.atlas_width
        &&& atlas.height_px == plan.layout.atlas_height
        &&& atlas.pixels@.len() == atlas.width_px * atlas.height_px * 4
        &&& forall|p: int|
            0 <= p < atlas.pixels@.len() ==> atlas.pixels@[p] == #[trigger] raster_atlas_byte(
                plan,
                n,
                p,
            )
        &&& keys_unique(atlas.entries@)
        &&& forall|k: WgpuTerminalGlyphKey|
            #[trigger] lookup_entry(atlas.entries@, k) == raster_expected_entry(
                plan,
                n,
                k,
                base_cell_width,
                baseline_y_px,
            )
    }
}

proof fn lemma_bitmap_bounds(glyphs: Seq<RasterizedGlyphView>, i: int)
    requires
        0 <= i < glyphs.len(),
    ensures
        bitmap_width(glyphs[i]) <= max_bitmap_width(glyphs),
        bitmap_height(glyphs[i]) <= max_bitmap_height(glyphs),
    decreases glyphs.len(),
{
    if i < glyphs.len() - 1 {
        lemma_bitmap_bounds(glyphs.drop_last(), i);
    }
}

proof fn lemma_max_bitmap_bounded(glyphs: Seq<RasterizedGlyphView>, side: int)
    requires
        side >= 1,
        forall|i: int| 0 <= i < glyphs.len() ==> bitmap_width(#[trigger] glyphs[i]) <= side
            && bitmap_height(glyphs[i]) <= side,
    ensures
        1 <= max_bitmap_width(glyphs) <= side,
        1 <= max_bitmap_height(glyphs) <= side,
    decreases glyphs.len(),
{
    if glyphs.len() > 0 {
        let rest = glyphs.drop_last();
        assert forall|i: int| 0 <= i < rest.len() implies bitmap_width(#[trigger] rest[i]) <= side
            && bitmap_height(rest[i]) <= side by {
            assert(rest[i] == glyphs[i]);
        }
        lemma_max_bitmap_bounded(rest, side);
        assert(glyphs.last() == glyphs[glyphs.len() - 1]);
    }
}

/// Glyph `i` of the grid covers pixel `q` of its bitmap at `(ox, oy)` exactly
/// when the atlas-wide formula names glyph `i` and that offset for `q`.
proof fn lemma_raster_cell(
    pad: int,
    sw: int,
    sh: int,
    cols: int,
    aw: int,
    i: int,
    gw: int,
    gh: int,
    q: int,
)
    requires
        pad >= 0,
        sw >= 1,
        sh >= 1,
        cols >= 1,
        aw == pad + cols * sw,
        i >= 0,
        0 <= gw <= sw,
        0 <= gh <= sh,
        q >= 0,
    ensures
        ({
            let x = q % aw;
            let y = q / aw;
            let cx = pad + (i % cols) * sw;
            let cy = pad + (i / cols) * sh;
            (cx <= x < cx + gw && cy <= y < cy + gh) <==> (x >= pad && y >= pad && ((y - pad) / sh)
                * cols + (x - pad) / sw == i && (x - pad) % sw < gw && (y - pad) % sh < gh)
        }),
        ({
            let x = q % aw;
            let y = q / aw;
            let cx = pad + (i % cols) * sw;
            let cy = pad + (i / cols) * sh;
            (cx <= x < cx + gw && cy <= y < cy + gh) ==> (x - cx == (x - pad) % sw && y - cy == (y
                - pad) % sh)
        }),
{
    let x = q % aw;
    let y = q / aw;
    let a = i / cols;
    let b = i % cols;
    assert(aw >= 1) by (nonlinear_arith)
        requires
            aw == pad + cols * sw,
            cols >= 1,
            sw >= 1,
            pad >= 0,
    ;
    lemma_fundamental_div_mod(i, cols);
    lemma_fundamental_div_mod(q, aw);
    assert(0 <= x < aw);
    let cx = pad + b * sw;
    let cy = pad + a * sh;
    if cx <= x < cx + gw && cy <= y < cy + gh {
        assert(a >= 0) by (nonlinear_arith)
            requires
                i >= 0,
                cols >= 1,
                a == i / cols,
        ;
        assert(b * sw >= 0 && a * sh >= 0) by (nonlinear_arith)
            requires
                b >= 0,
                a >= 0,
                sw >= 1,
                sh >= 1,
        ;
        lemma_fundamental_div_mod_converse(x - pad, sw, b, x - cx);
        lemma_fundamental_div_mod_converse(y - pad, sh, a, y - cy);
        assert(i == a * cols + b) by (nonlinear_arith)
            requires
                i == cols * a + b,
        ;
    }
    if x >= pad && y >= pad && ((y - pad) / sh) * cols + (x - pad) / sw == i && (x - pad) % sw < gw
        && (y - pad) % sh < gh {
        let qa = (y - pad) / sh;
        let qb = (x - pad) / sw;
        lemma_fundamental_div_mod(x - pad, sw);
        lemma_fundamental_div_mod(y - pad, sh);
        assert(qb < cols) by (nonlinear_arith)
            requires
                x - pad == sw * qb + (x - pad) % sw,
                (x - pad) % sw >= 0,
                x < aw,
                aw == pad + cols * sw,
                sw >= 1,
        ;
        assert(qb >= 0 && qa >= 0) by (nonlinear_arith)
            requires
                x - pad >= 0,
                y - pad >= 0,
                qb == (x - pad) / sw,
                qa == (y - pad) / sh,
                sw >= 1,
                sh >= 1,
        ;
        lemma_fundamental_div_mod_converse(i, cols, qa, qb);
        assert(x - pad == qb * sw + (x - pad) % sw) by (nonlinear_arith)
            requires
                x - pad == sw * qb + (x - pad) % sw,
        ;
        assert(y - pad == qa * sh + (y - pad) % sh) by (nonlinear_arith)
            requires
                y - pad == sh * qa + (y - pad) % sh,
        ;
    }
}

/// Drawing glyph `i` into an atlas that holds the glyphs before it gives the
/// atlas that holds glyph `i` too.
proof fn lemma_raster_step(
    plan: RasterAtlasPlan,
    i: int,
    len: int,
    before: Seq<u8>,
    after: Seq<u8>,
)
    requires
        plan.padding >= 0,
        plan.stride_width >= 1,
        plan.stride_height >= 1,
        plan.layout.columns >= 1,
        plan.layout.atlas_width == plan.padding + (plan.layout.columns as int) * plan.stride_width,
        0 <= i < plan.glyphs.len(),
        plan.glyphs[i].width_px <= plan.stride_width,
        plan.glyphs[i].height_px <= plan.stride_height,
        before.len() == len,
        after.len() == len,
        forall|p: int| 0 <= p < len ==> before[p] == #[trigger] raster_atlas_byte(plan, i, p),
        forall|p: int|
            0 <= p < len ==> #[trigger] after[p] == tight_pixel(
                plan.glyphs[i],
                plan.padding + (i % plan.layout.columns as int) * plan.stride_width,
                plan.padding + (i / plan.layout.columns as int) * plan.stride_height,
                plan.layout.atlas_width as int,
                len,
                before[p],
                p,
            ),
        len % 4 == 0,
    ensures
        forall|p: int| 0 <= p < len ==> after[p] == #[trigger] raster_atlas_byte(plan, i + 1, p),
{
    let g = plan.glyphs[i];
    assert forall|p: int| 0 <= p < len implies after[p] == #[trigger] raster_atlas_byte(
        plan,
        i + 1,
        p,
    ) by {
        lemma_fundamental_div_mod(p, 4);
        lemma_raster_cell(
            plan.padding,
            plan.stride_width,
            plan.stride_height,
            plan.layout.columns as int,
            plan.layout.atlas_width as int,
            i,
            g.width_px as int,
            g.height_px as int,
            p / 4,
        );
        assert(before[p] == raster_atlas_byte(plan, i, p));
    }
}

/// Builds an atlas from rasterized glyph bitmaps: bitmaps keep their native
/// size in a grid of cells as large as the largest bitmap, within the texture
/// limit; oversized bitmaps are dropped for an empty one; glyphs past the
/// capacity of the texture are left out; a key given twice keeps the entry of
/// its last position.
#[verifier::rlimit(60)]
pub fn build_atlas_from_rasterized_glyphs(
    glyphs: &[RasterizedTerminalGlyph],
    base_cell_width: u32,
    baseline_y_px: i32,
    padding_px: u32,
    columns: u32,
    max_texture_dimension_2d: u32,
) -> (atlas: WgpuTerminalGlyphAtlas)
    requires
        glyphs@.len() <= u32::MAX,
        forall|i: int|
            0 <= i < glyphs@.len() ==> draw_offset_in_range(
                sanitized(#[trigger] glyphs@[i]@, max_bitmap_side(padding_px, max_texture_dimension_2d)),
                base_cell_width,
                baseline_y_px,
            ),
    ensures
        is_raster_atlas_of(
            atlas,
            views(glyphs@),
            base_cell_width,
            baseline_y_px,
            padding_px,
            columns,
            max_texture_dimension_2d,
        ),
{
    if glyphs.len() == 0 {
        return WgpuTerminalGlyphAtlas::empty();
    }
    let ghost all = views(glyphs@);
    let limit: u32 = if max_texture_dimension_2d < 1 {
        1
    } else if max_texture_dimension_2d > 4096 {
        4096
    } else {
        max_texture_dimension_2d
    };
    let padding: u32 = if padding_px < limit - 1 {
        padding_px
    } else {
        limit - 1
    };
    let side: u32 = if limit > 2 * padding + 1 {
        limit - 2 * padding
    } else {
        1
    };
    let ghost kept = sanitized_all(all, side as int);
    assert(side == max_bitmap_side(padding_px, max_texture_dimension_2d));
    let mut max_width: u32 = 1;
    let mut max_height: u32 = 1;
    let mut i: usize = 0;
    while i < glyphs.len()
        invariant
            i <= glyphs@.len(),
            all == views(glyphs@),
            kept == sanitized_all(all, side as int),
            1 <= side <= 4096,
            max_width == max_bitmap_width(kept.subrange(0, i as int)),
            max_height == max_bitmap_height(kept.subrange(0, i as int)),
            1 <= max_width <= side,
            1 <= max_height <= side,
        decreases glyphs@.len() - i,
    {
        let g = &glyphs[i];
        let w: u32 = if g.width_px > 1 {
            g.width_px
        } else {
            1
        };
        let h: u32 = if g.height_px > 1 {
            g.height_px
        } else {
            1
        };
        let (w, h) = if w <= side && h <= side {
            (w, h)
        } else {
            (1, 1)
        };
        proof {
            assert(kept.subrange(0, i as int + 1).drop_last() =~= kept.subrange(0, i as int));
            assert(kept.subrange(0, i as int + 1).last() == kept[i as int]);
            assert(all[i as int] == glyphs@[i as int]@);
        }
        if w > max_width {
            max_width = w;
        }
        if h > max_height {
            max_height = h;
        }
        i = i + 1;
    }
    proof {
        assert(kept.subrange(0, glyphs@.len() as int) =~= kept);
    }
    let stride_width: u32 = max_width + padding;
    let stride_height: u32 = max_height + padding;
    let count: u32 = glyphs.len() as u32;
    let layout = GlyphAtlasGridLayout::new(count, columns, stride_width, stride_height, padding, limit);
    let ghost plan = raster_atlas_plan(all, padding_px, columns, max_texture_dimension_2d);
    proof {
        assert(plan.glyphs == kept);
        assert(plan.layout == layout);
        lemma_grid_layout_extent(count, columns, stride_width, stride_height, padding, limit);
        lemma_grid_layout_holds_capacity(count, columns, stride_width, stride_height, padding, limit);
    }
    let atlas_width: u32 = layout.atlas_width;
    let atlas_height: u32 = layout.atlas_height;
    assert(atlas_width <= 8191 && atlas_height <= 8191);
    assert(atlas_width * atlas_height * 4 <= 8191 * 8191 * 4) by (nonlinear_arith)
        requires
            atlas_width <= 8191,
            atlas_height <= 8191,
    ;
    let pixel_len: usize = (atlas_width as usize) * (atlas_height as usize) * 4;
    let mut pixels: Vec<u8> = Vec::new();
    let mut k: usize = 0;
    while k < pixel_len
        invariant
            k <= pixel_len,
            pixels@.len() == k,
            forall|p: int| 0 <= p < k ==> pixels@[p] == 0,
        decreases pixel_len - k,
    {
        pixels.push(0);
        k = k + 1;
    }
    let mut entries: Vec<(WgpuTerminalGlyphKey, WgpuTerminalGlyphAtlasEntry)> = Vec::new();
    let capacity: u32 = layout.glyph_capacity;
    let cols: u32 = layout.columns;
    let mut index: u32 = 0;
    while index < capacity
        invariant
            plan == raster_atlas_plan(all, padding_px, columns, max_texture_dimension_2d),
            plan.glyphs == kept,
            plan.layout == layout,
            all == views(glyphs@),
            kept == sanitized_all(all, side as int),
            padding == plan.padding,
            stride_width == plan.stride_width,
            stride_height == plan.stride_height,
            1 <= max_width <= side,
            1 <= max_height <= side,
            stride_width == max_width + padding,
            stride_height == max_height + padding,
            max_width == max_bitmap_width(kept),
            max_height == max_bitmap_height(kept),
            padding <= 4095,
            side <= 4096,
            cols == layout.columns,
            cols >= 1,
            capacity == layout.glyph_capacity,
            capacity <= glyphs@.len(),
            (cols as int) * (layout.row_count as int) >= capacity,
            layout.atlas_width == crate::atlas_layout::sat_u32(
                padding + crate::atlas_layout::sat_u32((cols as int) * stride_width),
            ),
            layout.atlas_height == crate::atlas_layout::sat_u32(
                padding + crate::atlas_layout::sat_u32((layout.row_count as int) * stride_height),
            ),
            atlas_width == layout.atlas_width,
            atlas_height == layout.atlas_height,
            atlas_width <= 8191,
            atlas_height <= 8191,
            forall|i: int|
                0 <= i < glyphs@.len() ==> draw_offset_in_range(
                    sanitized(#[trigger] glyphs@[i]@, side as int),
                    base_cell_width,
                    baseline_y_px,
                ),
            0 <= index <= capacity,
            pixels@.len() == atlas_width * atlas_height * 4,
            forall|p: int|
                0 <= p < pixels@.len() ==> pixels@[p] == #[trigger] raster_atlas_byte(
                    plan,
                    index as int,
                    p,
                ),
            keys_unique(entries@),
            forall|k: WgpuTerminalGlyphKey|
                #[trigger] lookup_entry(entries@, k) == raster_expected_entry(
                    plan,
                    index as int,
                    k,
                    base_cell_width,
                    baseline_y_px,
                ),
        decreases capacity - index,
    {
        let col: u32 = index % cols;
        let row: u32 = index / cols;
        proof {
            assert(row < layout.row_count) by (nonlinear_arith)
                requires
                    row == index / cols,
                    index < capacity,
                    capacity <= cols * layout.row_count,
                    cols >= 1,
            ;
            assert(col < cols);
            assert(cols * stride_width <= 8191) by {
                assert(atlas_width == padding + cols * stride_width) by (nonlinear_arith)
                    requires
                        atlas_width == crate::atlas_layout::sat_u32(
                            padding + crate::atlas_layout::sat_u32(cols * stride_width),
                        ),
                        atlas_width <= 8191,
                        cols * stride_width >= 0,
                ;
            }
            assert(layout.row_count * stride_height + padding == atlas_height) by (nonlinear_arith)
                requires
                    atlas_height == crate::atlas_layout::sat_u32(
                        padding + crate::atlas_layout::sat_u32(layout.row_count * stride_height),
                    ),
                    atlas_height <= 8191,
                    layout.row_count * stride_height >= 0,
            ;
            assert(col * stride_width + stride_width <= cols * stride_width) by (nonlinear_arith)
                requires
                    col < cols,
                    stride_width >= 0,
            ;
            assert(row * stride_height + stride_height <= layout.row_count * stride_height)
                by (nonlinear_arith)
                requires
                    row < layout.row_count,
                    stride_height >= 0,
            ;
        }
        let cell_x: u32 = padding + col * stride_width;
        let cell_y: u32 = padding + row * stride_height;
        let glyph = &glyphs[index as usize];
        let ghost g = kept[index as int];
        proof {
            assert(all[index as int] == glyphs@[index as int]@);
            lemma_bitmap_bounds(kept, index as int);
        }
        let w: u32 = if glyph.width_px > 1 {
            glyph.width_px
        } else {
            1
        };
        let h: u32 = if glyph.height_px > 1 {
            glyph.height_px
        } else {
            1
        };
        let fits = w <= side && h <= side;
        let ghost before = pixels@;
        proof {
            assert(g.width_px <= max_width && g.height_px <= max_height) by {
                if !fits {
                    assert(g.width_px == 1 && g.height_px == 1);
                }
            }
        }
        let (draw_offset_x_px, draw_offset_y_px) = if fits {
            proof {
                assert(g == glyph@);
                assert(glyph.height_px * glyph.width_px * 4 <= 4096 * 4096 * 4) by (nonlinear_arith)
                    requires
                        glyph.height_px <= 4096,
                        glyph.width_px <= 4096,
                ;
                assert((cell_y + glyph.height_px) * atlas_width * 4 <= 8191 * 8191 * 4)
                    by (nonlinear_arith)
                    requires
                        cell_y + glyph.height_px <= 8191,
                        atlas_width <= 8191,
                ;
            }
            write_crossfont_glyph_pixels_tight(glyph, cell_x, cell_y, atlas_width, &mut pixels);
            terminal_glyph_draw_offset(glyph, base_cell_width, baseline_y_px)
        } else {
            (0i32, baseline_y_px)
        };
        let entry = WgpuTerminalGlyphAtlasEntry {
            codepoint: glyph.key.packed_id(),
            x_px: cell_x,
            y_px: cell_y,
            width_px: if fits {
                w
            } else {
                1
            },
            height_px: if fits {
                h
            } else {
                1
            },
            advance_px: glyph.advance_px,
            draw_offset_x_px,
            draw_offset_y_px,
            draw_width_px: if fits {
                w
            } else {
                1
            },
            draw_height_px: if fits {
                h
            } else {
                1
            },
            is_color: if fits {
                glyph.is_color
            } else {
                false
            },
        };
        assert(entry == raster_entry(plan, index as int, base_cell_width, baseline_y_px));
        insert_entry(&mut entries, glyph.key, entry);
        proof {
            let len = pixels@.len() as int;
            assert(len % 4 == 0) by (nonlinear_arith)
                requires
                    len == atlas_width * atlas_height * 4,
            ;
            if !fits {
                assert(g.pixels == seq![0u8, 0u8, 0u8, 0u8]);
                assert forall|p: int| 0 <= p < len implies #[trigger] pixels@[p] == tight_pixel(
                    g,
                    padding + (index as int % cols as int) * stride_width,
                    padding + (index as int / cols as int) * stride_height,
                    atlas_width as int,
                    len,
                    before[p],
                    p,
                ) by {
                    assert(before[p] == raster_atlas_byte(plan, index as int, p));
                    lemma_fundamental_div_mod(p, 4);
                    lemma_raster_cell(
                        padding as int,
                        stride_width as int,
                        stride_height as int,
                        cols as int,
                        atlas_width as int,
                        index as int,
                        g.width_px as int,
                        g.height_px as int,
                        p / 4,
                    );
                }
            }
            lemma_raster_step(plan, index as int, len, before, pixels@);
            assert forall|k: WgpuTerminalGlyphKey| #[trigger] lookup_entry(entries@, k)
                == raster_expected_entry(plan, index as int + 1, k, base_cell_width, baseline_y_px) by {
            }
        }
        index = index + 1;
    }
    WgpuTerminalGlyphAtlas { width_px: atlas_width, height_px: atlas_height, pixels, entries }
}

} // verus!
