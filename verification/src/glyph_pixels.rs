use vstd::prelude::*;
use crate::font_metrics::{alpha_blend_pixel, blended_alpha, blended_channel};
use crate::raster_atlas::RasterizedTerminalGlyph;
use crate::text_shaping::TerminalTextSegment;

verus! {

// ---------------------------------------------------------------------------
// Glyph bitmaps as a font rasterizer hands them out.
// ---------------------------------------------------------------------------

/// A rasterized glyph's bitmap: three bytes per pixel, or four.
#[derive(Debug, Clone, PartialEq, Eq)]
pub enum GlyphBitmapBuffer {
    Rgb(Vec<u8>),
    Rgba(Vec<u8>),
}

pub open spec fn max_u8(a: u8, b: u8) -> u8 {
    if a >= b {
        a
    } else {
        b
    }
}

/// How many whole pixels of a `width_px` by `height_px` bitmap the bytes
/// hold, at `bytes_per_pixel` each.
pub open spec fn texel_count(len: int, bytes_per_pixel: int, width_px: u32, height_px: u32) -> int {
    if width_px == 0 || height_px == 0 {
        0
    } else {
        let whole = len / bytes_per_pixel;
        let area = width_px * height_px;
        if whole < area {
            whole
        } else {
            area
        }
    }
}

/// Byte `i` of the RGBA pixels of a bitmap: color bitmaps keep their colors
/// (RGB ones made opaque); other bitmaps become black with the strongest of
/// their channels as alpha.
pub open spec fn glyph_rgba_byte(bytes: Seq<u8>, rgba: bool, is_color: bool, i: int) -> u8 {
    let k = i / 4;
    let channel = i % 4;
    if !rgba {
        let r = bytes[3 * k];
        let g = bytes[3 * k + 1];
        let b = bytes[3 * k + 2];
        if is_color {
            if channel == 0 {
                r
            } else if channel == 1 {
                g
            } else if channel == 2 {
                b
            } else {
                255
            }
        } else if channel < 3 {
            0
        } else {
            max_u8(max_u8(r, g), b)
        }
    } else {
        let r = bytes[4 * k];
        let g = bytes[4 * k + 1];
        let b = bytes[4 * k + 2];
        let a = bytes[4 * k + 3];
        if is_color {
            bytes[4 * k + channel]
        } else if channel < 3 {
            0
        } else {
            max_u8(a, max_u8(max_u8(r, g), b))
        }
    }
}

/// The RGBA pixels of a glyph bitmap, as far as its bytes go.
pub open spec fn glyph_rgba(buffer: GlyphBitmapBuffer, width_px: u32, height_px: u32, is_color: bool) -> Seq<u8> {
    match buffer {
        GlyphBitmapBuffer::Rgb(bytes) => Seq::new(
            (4 * texel_count(bytes@.len() as int, 3, width_px, height_px)) as nat,
            |i: int| glyph_rgba_byte(bytes@, false, is_color, i),
        ),
        GlyphBitmapBuffer::Rgba(bytes) => Seq::new(
            (4 * texel_count(bytes@.len() as int, 4, width_px, height_px)) as nat,
            |i: int| glyph_rgba_byte(bytes@, true, is_color, i),
        ),
    }
}

fn max_byte(a: u8, b: u8) -> (r: u8)
    ensures
        r == max_u8(a, b),
{
    if a >= b {
        a
    } else {
        b
    }
}

/// The RGBA pixels of a glyph bitmap of `width_px` by `height_px`.
pub fn glyph_rgba_pixels(buffer: &GlyphBitmapBuffer, width_px: u32, height_px: u32, is_color: bool) -> (pixels:
    Vec<u8>)
    requires
        width_px * height_px <= u32::MAX,
    ensures
        pixels@ == glyph_rgba(*buffer, width_px, height_px, is_color),
{
    let mut pixels: Vec<u8> = Vec::new();
    if width_px == 0 || height_px == 0 {
        assert(pixels@ =~= glyph_rgba(*buffer, width_px, height_px, is_color));
        return pixels;
    }
    let area: u32 = width_px * height_px;
    let pixel_count = area as usize;
    let (bytes, rgba) = match buffer {
        GlyphBitmapBuffer::Rgb(bytes) => (bytes, false),
        GlyphBitmapBuffer::Rgba(bytes) => (bytes, true),
    };
    let stride: usize = if rgba {
        4
    } else {
        3
    };
    let byte_len = bytes.len();
    let whole = byte_len / stride;
    let count = if whole < pixel_count {
        whole
    } else {
        pixel_count
    };
    let ghost expected = glyph_rgba(*buffer, width_px, height_px, is_color);
    assert(expected.len() == 4 * count);
    let mut k: usize = 0;
    while k < count
        invariant
            k <= count,
            count <= bytes@.len() as int / stride as int,
            byte_len == bytes@.len(),
            stride == (if rgba {
                4usize
            } else {
                3usize
            }),
            expected == glyph_rgba(*buffer, width_px, height_px, is_color),
            expected.len() == 4 * count,
            buffer == (if rgba {
                GlyphBitmapBuffer::Rgba(*bytes)
            } else {
                GlyphBitmapBuffer::Rgb(*bytes)
            }),
            pixels@ == expected.subrange(0, 4 * k as int),
        decreases count - k,
    {
        assert(stride * k + stride <= bytes@.len()) by (nonlinear_arith)
            requires
                k < count,
                count <= bytes@.len() as int / stride as int,
                stride > 0,
        ;
        assert(stride * k <= bytes@.len());
        let base = stride * k;
        let r = bytes[base];
        let g = bytes[base + 1];
        let b = bytes[base + 2];
        if rgba {
            let a = bytes[base + 3];
            if is_color {
                pixels.push(r);
                pixels.push(g);
                pixels.push(b);
                pixels.push(a);
            } else {
                pixels.push(0);
                pixels.push(0);
                pixels.push(0);
                pixels.push(max_byte(a, max_byte(max_byte(r, g), b)));
            }
        } else if is_color {
            pixels.push(r);
            pixels.push(g);
            pixels.push(b);
            pixels.push(255);
        } else {
            pixels.push(0);
            pixels.push(0);
            pixels.push(0);
            pixels.push(max_byte(max_byte(r, g), b));
        }
        proof {
            assert forall|i: int| 4 * k <= i < 4 * k + 4 implies pixels@[i] == #[trigger] expected[i] by {
                assert(i / 4 == k as int) by (nonlinear_arith)
                    requires
                        4 * k <= i < 4 * k + 4,
                ;
                assert(i % 4 == i - 4 * k) by (nonlinear_arith)
                    requires
                        4 * k <= i < 4 * k + 4,
                ;
            }
            assert(pixels@ =~= expected.subrange(0, 4 * k as int + 4));
        }
        k = k + 1;
    }
    pixels
}

// ---------------------------------------------------------------------------
// Shaped clusters drawn pixel by pixel.
// ---------------------------------------------------------------------------

/// A segment's width in cells, at least one.
pub open spec fn segment_cells(segment: TerminalTextSegment) -> int {
    if segment.cell_width < 1 {
        1
    } else {
        segment.cell_width as int
    }
}

/// The glyph of a cluster that drew nothing: one transparent pixel drawn at
/// the cell origin, as wide as the cluster's cells.
pub open spec fn empty_cluster(segment: TerminalTextSegment, cell_width_px: u32, glyph: crate::raster_atlas::RasterizedGlyphView) -> bool {
    &&& glyph.key == segment.glyph_key
    &&& glyph.cell_width == segment_cells(segment)
    &&& glyph.width_px == 1
    &&& glyph.height_px == 1
    &&& glyph.left_px == 0
    &&& glyph.top_px == 0
    &&& glyph.advance_px == (segment_cells(segment) * cell_width_px) as i32
    &&& glyph.pixels == seq![0u8, 0u8, 0u8, 0u8]
    &&& !glyph.is_color
    &&& glyph.direct_draw_offset == Some((0i32, 0i32))
}

pub fn empty_cluster_glyph(segment: &TerminalTextSegment, cell_width_px: u32) -> (glyph: RasterizedTerminalGlyph)
    requires
        segment_cells(*segment) * cell_width_px <= u32::MAX,
    ensures
        empty_cluster(*segment, cell_width_px, glyph@),
{
    let cells: u32 = if segment.cell_width < 1 {
        1
    } else {
        segment.cell_width
    };
    let advance: u32 = cells * cell_width_px;
    let glyph = RasterizedTerminalGlyph {
        key: segment.glyph_key,
        cell_width: cells,
        width_px: 1,
        height_px: 1,
        left_px: 0,
        top_px: 0,
        advance_px: advance as i32,
        pixels: vec![0, 0, 0, 0],
        is_color: false,
        direct_draw_offset: Some((0, 0)),
    };
    assert(glyph.pixels@ =~= seq![0u8, 0u8, 0u8, 0u8]);
    glyph
}

/// One pixel a cluster drew: column, row and RGBA color.
pub type DrawnPixel = (i32, i32, [u8; 4]);

pub open spec fn min_x_of(pixels: Seq<DrawnPixel>) -> int
    decreases pixels.len(),
{
    if pixels.len() <= 1 {
        if pixels.len() == 1 {
            pixels[0].0 as int
        } else {
            0
        }
    } else {
        let rest = min_x_of(pixels.drop_last());
        let x = pixels.last().0 as int;
        if x < rest {
            x
        } else {
            rest
        }
    }
}

pub open spec fn max_x_of(pixels: Seq<DrawnPixel>) -> int
    decreases pixels.len(),
{
    if pixels.len() <= 1 {
        if pixels.len() == 1 {
            pixels[0].0 as int
        } else {
            0
        }
    } else {
        let rest = max_x_of(pixels.drop_last());
        let x = pixels.last().0 as int;
        if x > rest {
            x
        } else {
            rest
        }
    }
}

pub open spec fn min_y_of(pixels: Seq<DrawnPixel>) -> int
    decreases pixels.len(),
{
    if pixels.len() <= 1 {
        if pixels.len() == 1 {
            pixels[0].1 as int
        } else {
            0
        }
    } else {
        let rest = min_y_of(pixels.drop_last());
        let y = pixels.last().1 as int;
        if y < rest {
            y
        } else {
            rest
        }
    }
}

pub open spec fn max_y_of(pixels: Seq<DrawnPixel>) -> int
    decreases pixels.len(),
{
    if pixels.len() <= 1 {
        if pixels.len() == 1 {
            pixels[0].1 as int
        } else {
            0
        }
    } else {
        let rest = max_y_of(pixels.drop_last());
        let y = pixels.last().1 as int;
        if y > rest {
            y
        } else {
            rest
        }
    }
}

/// The drawn pixels' bounds lie within them.
pub proof fn lemma_bounds(pixels: Seq<DrawnPixel>, k: int)
    requires
        0 <= k < pixels.len(),
    ensures
        min_x_of(pixels) <= pixels[k].0 <= max_x_of(pixels),
        min_y_of(pixels) <= pixels[k].1 <= max_y_of(pixels),
    decreases pixels.len(),
{
    if pixels.len() > 1 && k < pixels.len() - 1 {
        lemma_bounds(pixels.drop_last(), k);
    }
}

/// The color a drawn pixel leaves: its own for a color cluster, else black
/// with its alpha.
pub open spec fn source_color(pixel: DrawnPixel, is_color: bool) -> [u8; 4] {
    if is_color {
        pixel.2
    } else {
        [0u8, 0u8, 0u8, pixel.2[3]]
    }
}

/// Blending `source` over the pixel that starts at byte `i` stays within the
/// 16-bit arithmetic of the blend.
pub open spec fn blend_fits(canvas: Seq<u8>, i: int, source: [u8; 4]) -> bool {
    forall|c: int| 0 <= c < 3 ==> #[trigger] channel_blend_fits(canvas, i, source, c)
}

/// Blending channel `c` of `source` over the pixel that starts at byte `i`
/// stays within 16 bits.
pub open spec fn channel_blend_fits(canvas: Seq<u8>, i: int, source: [u8; 4], c: int) -> bool {
    let dc = canvas[i + c] as int;
    let da = canvas[i + 3] as int;
    let sa = source@[3] as int;
    &&& dc * da * (255 - sa) <= u16::MAX
    &&& source@[c] as int * sa + dc * da * (255 - sa) / 255 <= u16::MAX
}

/// The canvas after blending `source` over the pixel that starts at byte `i`.
pub open spec fn blend_at(canvas: Seq<u8>, i: int, source: [u8; 4]) -> Seq<u8> {
    let sa = source[3] as int;
    let da = canvas[i + 3] as int;
    if !(0 <= i && i + 4 <= canvas.len()) || blended_alpha(sa, da) == 0 {
        canvas
    } else {
        canvas.update(i, blended_channel(source[0] as int, sa, canvas[i] as int, da)).update(
            i + 1,
            blended_channel(source[1] as int, sa, canvas[i + 1] as int, da),
        ).update(i + 2, blended_channel(source[2] as int, sa, canvas[i + 2] as int, da)).update(
            i + 3,
            blended_alpha(sa, da) as u8,
        )
    }
}

/// Where the pixel at `(x, y)` starts in a canvas `width` pixels wide whose
/// top left is `(min_x, min_y)`.
pub open spec fn pixel_index(x: int, y: int, min_x: int, min_y: int, width: int) -> int {
    ((y - min_y) * width + (x - min_x)) * 4
}

/// The canvas after the first `k` drawn pixels, from transparent black.
pub open spec fn canvas_after(
    pixels: Seq<DrawnPixel>,
    k: int,
    is_color: bool,
    min_x: int,
    min_y: int,
    width: int,
    height: int,
) -> Seq<u8>
    decreases k,
{
    if k <= 0 {
        Seq::new((width * height * 4) as nat, |i: int| 0u8)
    } else {
        let before = canvas_after(pixels, k - 1, is_color, min_x, min_y, width, height);
        let p = pixels[k - 1];
        blend_at(before, pixel_index(p.0 as int, p.1 as int, min_x, min_y, width), source_color(p, is_color))
    }
}

/// The width of the drawn pixels' bounding box, at least one.
pub open spec fn box_width(pixels: Seq<DrawnPixel>) -> int {
    if max_x_of(pixels) - min_x_of(pixels) + 1 < 1 {
        1
    } else {
        max_x_of(pixels) - min_x_of(pixels) + 1
    }
}

pub open spec fn box_height(pixels: Seq<DrawnPixel>) -> int {
    if max_y_of(pixels) - min_y_of(pixels) + 1 < 1 {
        1
    } else {
        max_y_of(pixels) - min_y_of(pixels) + 1
    }
}

/// What drawing a cluster pixel by pixel may ask: a bounding box whose
/// sides and byte count fit the integer types, cells that fit, and blends
/// that stay within their 16-bit arithmetic.
pub open spec fn cluster_drawable(
    segment: TerminalTextSegment,
    cell_width_px: u32,
    cell_height_px: u32,
    is_color: bool,
    pixels: Seq<DrawnPixel>,
) -> bool {
    &&& segment_cells(segment) * cell_width_px <= u32::MAX
    &&& cell_height_px <= i32::MAX
    &&& max_x_of(pixels) - min_x_of(pixels) + 1 <= i32::MAX
    &&& max_y_of(pixels) - min_y_of(pixels) + 1 <= i32::MAX
    &&& box_width(pixels) * box_height(pixels) * 4 <= u32::MAX
    &&& forall|k: int|
        0 <= k < pixels.len() ==> blend_fits(
            canvas_after(
                pixels,
                k,
                is_color,
                min_x_of(pixels),
                min_y_of(pixels),
                box_width(pixels),
                box_height(pixels),
            ),
            pixel_index(
                (#[trigger] pixels[k]).0 as int,
                pixels[k].1 as int,
                min_x_of(pixels),
                min_y_of(pixels),
                box_width(pixels),
            ),
            source_color(pixels[k], is_color),
        )
}

/// The glyph of a cluster drawn pixel by pixel: the drawn pixels blended in
/// order over transparent black in their bounding box, drawn at the box's
/// left edge and its top clamped into the cell; a cluster that drew nothing
/// is an empty glyph.
pub open spec fn cluster_glyph(
    segment: TerminalTextSegment,
    cell_width_px: u32,
    cell_height_px: u32,
    is_color: bool,
    pixels: Seq<DrawnPixel>,
    glyph: crate::raster_atlas::RasterizedGlyphView,
) -> bool {
    if pixels.len() == 0 {
        empty_cluster(segment, cell_width_px, glyph)
    } else {
        let min_x = min_x_of(pixels);
        let min_y = min_y_of(pixels);
        &&& glyph.key == segment.glyph_key
        &&& glyph.cell_width == segment_cells(segment)
        &&& glyph.width_px == box_width(pixels)
        &&& glyph.height_px == box_height(pixels)
        &&& glyph.left_px == min_x
        &&& glyph.top_px == 0
        &&& glyph.advance_px == (segment_cells(segment) * cell_width_px) as i32
        &&& glyph.pixels == canvas_after(
            pixels,
            pixels.len() as int,
            is_color,
            min_x,
            min_y,
            box_width(pixels),
            box_height(pixels),
        )
        &&& glyph.is_color == is_color
        &&& glyph.direct_draw_offset == Some(
            (
                min_x as i32,
                (if min_y < 0 {
                    0
                } else if min_y > cell_height_px {
                    cell_height_px as int
                } else {
                    min_y
                }) as i32,
            ),
        )
    }
}

proof fn lemma_canvas_len(
    pixels: Seq<DrawnPixel>,
    k: int,
    is_color: bool,
    min_x: int,
    min_y: int,
    width: int,
    height: int,
)
    requires
        width >= 1,
        height >= 1,
    ensures
        canvas_after(pixels, k, is_color, min_x, min_y, width, height).len() == width * height * 4,
    decreases k,
{
    assert(width * height >= 1) by (nonlinear_arith)
        requires
            width >= 1,
            height >= 1,
    ;
    if k > 0 {
        lemma_canvas_len(pixels, k - 1, is_color, min_x, min_y, width, height);
    }
}

/// Blends `source` over the pixel of `canvas` that starts at byte `index`.
fn blend_into(canvas: &mut Vec<u8>, index: usize, source: [u8; 4])
    requires
        index + 4 <= old(canvas)@.len(),
        blend_fits(old(canvas)@, index as int, source),
    ensures
        final(canvas)@ == blend_at(old(canvas)@, index as int, source),
{
    let canvas_len = canvas.len();
    assert(canvas_len == old(canvas)@.len());
    let mut window: [u8; 4] = [canvas[index], canvas[index + 1], canvas[index + 2], canvas[index + 3]];
    assert(window@ =~= old(canvas)@.subrange(index as int, index as int + 4));
    assert forall|c: int| 0 <= c < 3 implies {
        &&& #[trigger] window@[c] as int * window@[3] as int * (255 - source@[3] as int) <= u16::MAX
        &&& source@[c] as int * source@[3] as int + window@[c] as int * window@[3] as int * (255
            - source@[3] as int) / 255 <= u16::MAX
    } by {
        assert(window@[c] == old(canvas)@[index + c]);
        assert(window@[3] == old(canvas)@[index + 3]);
        assert(channel_blend_fits(old(canvas)@, index as int, source, c));
    }
    alpha_blend_pixel(&mut window, source);
    canvas.set(index, window[0]);
    canvas.set(index + 1, window[1]);
    canvas.set(index + 2, window[2]);
    canvas.set(index + 3, window[3]);
    assert(canvas@ =~= blend_at(old(canvas)@, index as int, source));
}

/// The glyph of a shaped cluster drawn pixel by pixel.
pub fn rasterized_cluster_from_pixels(
    segment: &TerminalTextSegment,
    cell_width_px: u32,
    cell_height_px: u32,
    is_color: bool,
    drawn_pixels: Vec<DrawnPixel>,
) -> (glyph: RasterizedTerminalGlyph)
    requires
        cluster_drawable(*segment, cell_width_px, cell_height_px, is_color, drawn_pixels@),
    ensures
        cluster_glyph(*segment, cell_width_px, cell_height_px, is_color, drawn_pixels@, glyph@),
{
    let n = drawn_pixels.len();
    if n == 0 {
        return empty_cluster_glyph(segment, cell_width_px);
    }
    let ghost all = drawn_pixels@;
    let mut min_x: i32 = drawn_pixels[0].0;
    let mut max_x: i32 = drawn_pixels[0].0;
    let mut min_y: i32 = drawn_pixels[0].1;
    let mut max_y: i32 = drawn_pixels[0].1;
    let mut k: usize = 1;
    assert(all.subrange(0, 1).len() == 1);
    while k < n
        invariant
            1 <= k <= n,
            n == all.len(),
            all == drawn_pixels@,
            min_x == min_x_of(all.subrange(0, k as int)),
            max_x == max_x_of(all.subrange(0, k as int)),
            min_y == min_y_of(all.subrange(0, k as int)),
            max_y == max_y_of(all.subrange(0, k as int)),
        decreases n - k,
    {
        let (x, y, _) = drawn_pixels[k];
        proof {
            assert(all.subrange(0, k as int + 1).drop_last() =~= all.subrange(0, k as int));
        }
        if x < min_x {
            min_x = x;
        }
        if x > max_x {
            max_x = x;
        }
        if y < min_y {
            min_y = y;
        }
        if y > max_y {
            max_y = y;
        }
        k = k + 1;
    }
    assert(all.subrange(0, n as int) =~= all);
    let width_signed: i32 = max_x - min_x + 1;
    let height_signed: i32 = max_y - min_y + 1;
    let width_px: u32 = if width_signed < 1 {
        1
    } else {
        width_signed as u32
    };
    let height_px: u32 = if height_signed < 1 {
        1
    } else {
        height_signed as u32
    };
    let area: u32 = width_px * height_px;
    let byte_len: u32 = area * 4;
    let mut pixels: Vec<u8> = Vec::new();
    let mut i: u32 = 0;
    while i < byte_len
        invariant
            i <= byte_len,
            pixels@ == Seq::new(i as nat, |j: int| 0u8),
        decreases byte_len - i,
    {
        pixels.push(0);
        assert(pixels@ =~= Seq::new((i + 1) as nat, |j: int| 0u8));
        i = i + 1;
    }
    let ghost w = width_px as int;
    let ghost h = height_px as int;
    assert(pixels@ =~= canvas_after(all, 0, is_color, min_x as int, min_y as int, w, h));
    let mut k: usize = 0;
    while k < n
        invariant
            k <= n,
            n == all.len(),
            all == drawn_pixels@,
            cluster_drawable(*segment, cell_width_px, cell_height_px, is_color, all),
            min_x == min_x_of(all),
            min_y == min_y_of(all),
            max_x == max_x_of(all),
            max_y == max_y_of(all),
            w == box_width(all),
            h == box_height(all),
            w == width_px,
            h == height_px,
            pixels@ == canvas_after(all, k as int, is_color, min_x as int, min_y as int, w, h),
        decreases n - k,
    {
        let (x, y, rgba) = drawn_pixels[k];
        proof {
            lemma_bounds(all, k as int);
            lemma_canvas_len(all, k as int, is_color, min_x as int, min_y as int, w, h);
        }
        let pixel_x: u32 = (x - min_x) as u32;
        let pixel_y: u32 = (y - min_y) as u32;
        assert(pixel_y * width_px + pixel_x < width_px * height_px) by (nonlinear_arith)
            requires
                pixel_x < width_px,
                pixel_y < height_px,
        ;
        let index: u32 = (pixel_y * width_px + pixel_x) * 4;
        let index = index as usize;
        let source: [u8; 4] = if is_color {
            rgba
        } else {
            [0, 0, 0, rgba[3]]
        };
        assert(source == source_color(all[k as int], is_color));
        proof {
            assert(index as int == pixel_index(x as int, y as int, min_x as int, min_y as int, w));
            assert(index + 4 <= pixels@.len());
            assert(blend_fits(pixels@, index as int, source));
        }
        blend_into(&mut pixels, index, source);
        k = k + 1;
    }
    let cells: u32 = if segment.cell_width < 1 {
        1
    } else {
        segment.cell_width
    };
    let advance: u32 = cells * cell_width_px;
    let top: i32 = if min_y < 0 {
        0
    } else if min_y > cell_height_px as i32 {
        cell_height_px as i32
    } else {
        min_y
    };
    RasterizedTerminalGlyph {
        key: segment.glyph_key,
        cell_width: cells,
        width_px,
        height_px,
        left_px: min_x,
        top_px: 0,
        advance_px: advance as i32,
        pixels,
        is_color,
        direct_draw_offset: Some((min_x, top)),
    }
}

} // verus!
