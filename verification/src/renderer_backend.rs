use vstd::prelude::*;
use crate::colors::{RgbColorDto, TextStyleDto};
use crate::quad_plan::{RgbaColorDto, WgpuQuadDrawItem, WgpuQuadKind};
use crate::render_surface::{
    RenderSurfaceCursorShape, RenderSurfaceCursorSnapshot, RenderSurfaceRowSnapshot, RowView, RunView,
};
use crate::text_shaping::{char_cell_width, terminal_char_cell_width};
use crate::atlas_layout::{max_int, min_int};
use crate::frame_geometry::{
    VideoSurfaceRect, fit_video_frame_rect, fit_video_frame_spec, scale_virtual_px, scale_virtual_spec,
};
use crate::render_surface::{PreeditView, RenderSurfaceImePreeditSnapshot, RenderSurfaceSnapshot, SurfaceView};
use crate::ids::{RenderTargetId, SeqNo};
use crate::retained_frame::{WgpuRendererConfig, at_least_one, row_height, row_top, sat_add_u32, sat_sub_u32};

verus! {

// ---------------------------------------------------------------------------
// Glyphs placed on the grid, and the quads that draw them.
// ---------------------------------------------------------------------------

/// A character placed on the terminal grid: its cell, the cells it spans
/// and its style.
#[derive(Debug, Clone, Copy, PartialEq, Eq, Structural)]
pub struct WgpuGlyphDrawItem {
    pub x: u32,
    pub y: u32,
    pub c: char,
    pub cell_width: u32,
    pub style: TextStyleDto,
}

/// The left edge of column `x` in surface pixels.
pub open spec fn column_left(config: WgpuRendererConfig, x: u32) -> int {
    config.content_origin_x + x * config.cell_width_px
}

/// How wide `cells` cells are in pixels; a span of no cells is one cell.
pub open spec fn span_width(config: WgpuRendererConfig, cells: u32) -> int {
    at_least_one(cells as int) * config.cell_width_px
}

/// Column `x` of the grid, and a span of `cells` cells from it, fit in
/// surface pixels.
pub open spec fn span_fits(config: WgpuRendererConfig, x: u32, cells: u32) -> bool {
    &&& column_left(config, x) <= u32::MAX
    &&& span_width(config, cells) <= u32::MAX
}

fn column_left_px(config: WgpuRendererConfig, x: u32) -> (left: u32)
    requires
        column_left(config, x) <= u32::MAX,
    ensures
        left == column_left(config, x),
{
    assert(x * config.cell_width_px <= column_left(config, x)) by (nonlinear_arith)
        requires
            x >= 0,
            config.cell_width_px >= 0,
            column_left(config, x) == config.content_origin_x + x * config.cell_width_px,
    ;
    config.content_origin_x + x * config.cell_width_px
}

fn span_width_px(config: WgpuRendererConfig, cells: u32) -> (width: u32)
    requires
        span_width(config, cells) <= u32::MAX,
    ensures
        width == span_width(config, cells),
{
    let cells: u32 = if cells < 1 {
        1
    } else {
        cells
    };
    cells * config.cell_width_px
}

impl WgpuGlyphDrawItem {
    pub fn pixel_x(&self, config: WgpuRendererConfig) -> (x: u32)
        requires
            column_left(config, self.x) <= u32::MAX,
        ensures
            x == column_left(config, self.x),
    {
        column_left_px(config, self.x)
    }

    pub fn pixel_y(&self, config: WgpuRendererConfig) -> (y: u32)
        ensures
            y == row_top(config, self.y),
    {
        config.row_top_px(self.y)
    }

    pub fn pixel_width(&self, config: WgpuRendererConfig) -> (width: u32)
        requires
            span_width(config, self.cell_width) <= u32::MAX,
        ensures
            width == span_width(config, self.cell_width),
    {
        span_width_px(config, self.cell_width)
    }
}

/// A quad of the given kind, place and style, drawn opaque.
pub open spec fn quad(kind: WgpuQuadKind, x_px: int, y_px: int, width_px: int, height_px: int, style: TextStyleDto) -> WgpuQuadDrawItem {
    WgpuQuadDrawItem {
        kind,
        x_px: x_px as u32,
        y_px: y_px as u32,
        width_px: width_px as u32,
        height_px: height_px as u32,
        style,
        alpha: 255,
    }
}

pub open spec fn plain_style() -> TextStyleDto {
    TextStyleDto { foreground: None, background: None, bold: false, italic: false, underline: false }
}

/// The quad that paints the whole surface, padding included, in `color`.
pub open spec fn surface_background_quad(config: WgpuRendererConfig, color: RgbColorDto) -> WgpuQuadDrawItem {
    quad(
        WgpuQuadKind::Background,
        0,
        0,
        sat_add_u32(
            config.content_width_px as int,
            if config.content_origin_x as int * 2 > u32::MAX {
                u32::MAX as int
            } else {
                config.content_origin_x as int * 2
            },
        ),
        sat_add_u32(
            config.content_height_px as int,
            if config.content_origin_y as int * 2 > u32::MAX {
                u32::MAX as int
            } else {
                config.content_origin_y as int * 2
            },
        ),
        TextStyleDto { background: Some(color), ..plain_style() },
    )
}

/// The quad of a glyph: its cells in its row.
pub open spec fn glyph_quad(glyph: WgpuGlyphDrawItem, config: WgpuRendererConfig) -> WgpuQuadDrawItem {
    quad(
        WgpuQuadKind::Glyph { c: glyph.c, bold: glyph.style.bold, italic: glyph.style.italic },
        column_left(config, glyph.x),
        row_top(config, glyph.y),
        span_width(config, glyph.cell_width),
        row_height(config, glyph.y),
        glyph.style,
    )
}

/// The background quad of `cells` cells from column `x` of row `y`.
pub open spec fn background_quad(x: u32, y: u32, cells: u32, config: WgpuRendererConfig, style: TextStyleDto) -> WgpuQuadDrawItem {
    quad(
        WgpuQuadKind::Background,
        column_left(config, x),
        row_top(config, y),
        span_width(config, cells),
        row_height(config, y),
        style,
    )
}

/// The underline of `cells` cells from column `x` of row `y`: one pixel
/// high, two pixels above the row's bottom.
pub open spec fn underline_quad(x: u32, y: u32, cells: u32, config: WgpuRendererConfig, style: TextStyleDto) -> WgpuQuadDrawItem {
    quad(
        WgpuQuadKind::Underline,
        column_left(config, x),
        sat_add_u32(row_top(config, y), sat_sub_u32(row_height(config, y), 2)),
        span_width(config, cells),
        1,
        style,
    )
}

/// A solid rectangle at least one pixel wide and high.
pub open spec fn solid_rect_quad(x_px: u32, y_px: u32, width_px: u32, height_px: u32, style: TextStyleDto) -> WgpuQuadDrawItem {
    quad(
        WgpuQuadKind::Geometric,
        x_px as int,
        y_px as int,
        at_least_one(width_px as int),
        at_least_one(height_px as int),
        style,
    )
}

/// A rectangle filled with `color`, at least one pixel wide and high.
pub open spec fn pixel_rect_quad(x_px: u32, y_px: u32, width_px: u32, height_px: u32, color: RgbaColorDto) -> WgpuQuadDrawItem {
    quad(
        WgpuQuadKind::PixelRect { color },
        x_px as int,
        y_px as int,
        at_least_one(width_px as int),
        at_least_one(height_px as int),
        plain_style(),
    )
}

fn at_least_one_u32(v: u32) -> (r: u32)
    ensures
        r == at_least_one(v as int),
{
    if v < 1 {
        1
    } else {
        v
    }
}

/// `2 * v`, at most `u32::MAX`.
fn doubled(v: u32) -> (r: u32)
    ensures
        r == (if v as int * 2 > u32::MAX {
            u32::MAX as int
        } else {
            v as int * 2
        }),
{
    if v > u32::MAX / 2 {
        u32::MAX
    } else {
        v * 2
    }
}

impl WgpuQuadDrawItem {
    pub fn surface_background(config: WgpuRendererConfig, color: RgbColorDto) -> (q: Self)
        ensures
            q == surface_background_quad(config, color),
    {
        WgpuQuadDrawItem {
            kind: WgpuQuadKind::Background,
            x_px: 0,
            y_px: 0,
            width_px: config.content_width_px.saturating_add(doubled(config.content_origin_x)),
            height_px: config.content_height_px.saturating_add(doubled(config.content_origin_y)),
            style: TextStyleDto {
                foreground: None,
                background: Some(color),
                bold: false,
                italic: false,
                underline: false,
            },
            alpha: 255,
        }
    }

    pub fn glyph(glyph: WgpuGlyphDrawItem, config: WgpuRendererConfig) -> (q: Self)
        requires
            span_fits(config, glyph.x, glyph.cell_width),
        ensures
            q == glyph_quad(glyph, config),
    {
        WgpuQuadDrawItem {
            kind: WgpuQuadKind::Glyph { c: glyph.c, bold: glyph.style.bold, italic: glyph.style.italic },
            x_px: glyph.pixel_x(config),
            y_px: glyph.pixel_y(config),
            width_px: glyph.pixel_width(config),
            height_px: config.row_height_px(glyph.y),
            style: glyph.style,
            alpha: 255,
        }
    }

    pub fn background(x: u32, y: u32, cell_width: u32, config: WgpuRendererConfig, style: TextStyleDto) -> (q:
        Self)
        requires
            span_fits(config, x, cell_width),
        ensures
            q == background_quad(x, y, cell_width, config, style),
    {
        WgpuQuadDrawItem {
            kind: WgpuQuadKind::Background,
            x_px: column_left_px(config, x),
            y_px: config.row_top_px(y),
            width_px: span_width_px(config, cell_width),
            height_px: config.row_height_px(y),
            style,
            alpha: 255,
        }
    }

    pub fn underline(x: u32, y: u32, cell_width: u32, config: WgpuRendererConfig, style: TextStyleDto) -> (q:
        Self)
        requires
            span_fits(config, x, cell_width),
        ensures
            q == underline_quad(x, y, cell_width, config, style),
    {
        WgpuQuadDrawItem {
            kind: WgpuQuadKind::Underline,
            x_px: column_left_px(config, x),
            y_px: config.row_top_px(y).saturating_add(config.row_height_px(y).saturating_sub(2)),
            width_px: span_width_px(config, cell_width),
            height_px: 1,
            style,
            alpha: 255,
        }
    }

    pub fn solid_rect(x_px: u32, y_px: u32, width_px: u32, height_px: u32, style: TextStyleDto) -> (q: Self)
        ensures
            q == solid_rect_quad(x_px, y_px, width_px, height_px, style),
    {
        WgpuQuadDrawItem {
            kind: WgpuQuadKind::Geometric,
            x_px,
            y_px,
            width_px: at_least_one_u32(width_px),
            height_px: at_least_one_u32(height_px),
            style,
            alpha: 255,
        }
    }

    pub fn pixel_rect(x_px: u32, y_px: u32, width_px: u32, height_px: u32, color: RgbaColorDto) -> (q: Self)
        ensures
            q == pixel_rect_quad(x_px, y_px, width_px, height_px, color),
    {
        WgpuQuadDrawItem {
            kind: WgpuQuadKind::PixelRect { color },
            x_px,
            y_px,
            width_px: at_least_one_u32(width_px),
            height_px: at_least_one_u32(height_px),
            style: TextStyleDto { foreground: None, background: None, bold: false, italic: false, underline: false },
            alpha: 255,
        }
    }
}

// ---------------------------------------------------------------------------
// The cursor.
// ---------------------------------------------------------------------------

/// Whether the cursor is drawn: its pane has focus, and a blinking cursor
/// is in its visible phase.
pub open spec fn cursor_drawn(cursor: RenderSurfaceCursorSnapshot, config: WgpuRendererConfig) -> bool {
    cursor.focused && !(cursor.blinking && !config.blinking_cursor_visible)
}

/// `v / 8` rounded up, at least one: the stroke of a cursor outline.
pub open spec fn stroke(v: int) -> int {
    at_least_one((v + 7) / 8)
}

/// The cursor's cell fits in surface pixels with its strokes.
pub open spec fn cursor_fits(cursor: RenderSurfaceCursorSnapshot, config: WgpuRendererConfig) -> bool {
    let x = column_left(config, cursor.x);
    let y = row_top(config, cursor.y);
    let h = row_height(config, cursor.y);
    &&& x + at_least_one(config.cell_width_px as int) <= u32::MAX
    &&& y + h <= u32::MAX
}

/// The quads of the cursor in the cursor color: a block, an underline or a
/// beam an eighth of the cell thick, or the four sides of a hollow block.
pub open spec fn cursor_quads(cursor: RenderSurfaceCursorSnapshot, config: WgpuRendererConfig) -> Seq<WgpuQuadDrawItem> {
    if !cursor_drawn(cursor, config) {
        Seq::empty()
    } else {
        let x = column_left(config, cursor.x) as u32;
        let y = row_top(config, cursor.y) as u32;
        let w = at_least_one(config.cell_width_px as int);
        let h = row_height(config, cursor.y);
        let style = TextStyleDto { foreground: Some(config.cursor_color), ..plain_style() };
        let vertical = stroke(w) as u32;
        let horizontal = stroke(h) as u32;
        match cursor.shape {
            RenderSurfaceCursorShape::Block => seq![solid_rect_quad(x, y, w as u32, h as u32, style)],
            RenderSurfaceCursorShape::Underline => seq![
                solid_rect_quad(x, (y + sat_sub_u32(h, horizontal as int)) as u32, w as u32, horizontal, style),
            ],
            RenderSurfaceCursorShape::Beam => seq![solid_rect_quad(x, y, vertical, h as u32, style)],
            RenderSurfaceCursorShape::HollowBlock => seq![
                solid_rect_quad(x, y, w as u32, horizontal, style),
                solid_rect_quad(x, (y + sat_sub_u32(h, horizontal as int)) as u32, w as u32, horizontal, style),
                solid_rect_quad(x, y, vertical, h as u32, style),
                solid_rect_quad((x + sat_sub_u32(w, vertical as int)) as u32, y, vertical, h as u32, style),
            ],
            RenderSurfaceCursorShape::Hidden => Seq::empty(),
        }
    }
}

/// A quad lies inside the rectangle from (`left`, `top`) of the given size.
pub open spec fn quad_within(q: WgpuQuadDrawItem, left: int, top: int, width: int, height: int) -> bool {
    &&& left <= q.x_px
    &&& q.x_px + q.width_px <= left + width
    &&& top <= q.y_px
    &&& q.y_px + q.height_px <= top + height
}

/// A drawn hollow-block cursor outlines its cell in the cursor color: four
/// quads inside the cell, one along each of its top, bottom, left and right
/// edges, the top and bottom ones across the cell's width and the left and
/// right ones down the row's height.
pub proof fn law_hollow_block_cursor_outlines_its_cell(
    cursor: RenderSurfaceCursorSnapshot,
    config: WgpuRendererConfig,
)
    requires
        cursor.shape == RenderSurfaceCursorShape::HollowBlock,
        cursor_drawn(cursor, config),
        cursor_fits(cursor, config),
    ensures
        ({
            let quads = cursor_quads(cursor, config);
            let left = column_left(config, cursor.x);
            let top = row_top(config, cursor.y);
            let width = at_least_one(config.cell_width_px as int);
            let height = row_height(config, cursor.y);
            &&& quads.len() == 4
            &&& forall|i: int|
                0 <= i < 4 ==> {
                    &&& quad_within(#[trigger] quads[i], left, top, width, height)
                    &&& quads[i].kind == WgpuQuadKind::Geometric
                    &&& quads[i].style.foreground == Some(config.cursor_color)
                }
            &&& exists|i: int|
                0 <= i < 4 && #[trigger] quads[i].x_px == left && quads[i].y_px == top && quads[i].width_px
                    == width
            &&& exists|i: int|
                0 <= i < 4 && #[trigger] quads[i].x_px == left && quads[i].y_px + quads[i].height_px == top
                    + height && quads[i].width_px == width
            &&& exists|i: int|
                0 <= i < 4 && #[trigger] quads[i].x_px == left && quads[i].y_px == top && quads[i].height_px
                    == height
            &&& exists|i: int|
                0 <= i < 4 && #[trigger] quads[i].x_px + quads[i].width_px == left + width && quads[i].y_px
                    == top && quads[i].height_px == height
        }),
{
    let quads = cursor_quads(cursor, config);
    let left = column_left(config, cursor.x);
    let top = row_top(config, cursor.y);
    let width = at_least_one(config.cell_width_px as int);
    let height = row_height(config, cursor.y);
    assert(left >= 0) by (nonlinear_arith)
        requires
            left == config.content_origin_x + cursor.x * config.cell_width_px,
    ;
    assert(top >= 0);
    assert(height >= 1);
    assert(stroke(width) <= width);
    assert(stroke(height) <= height);
    assert(quads[0].x_px == left && quads[0].y_px == top && quads[0].width_px == width);
    assert(quads[1].x_px == left && quads[1].y_px + quads[1].height_px == top + height);
    assert(quads[2].x_px == left && quads[2].y_px == top && quads[2].height_px == height);
    assert(quads[3].x_px + quads[3].width_px == left + width && quads[3].y_px == top);
    assert(forall|i: int|
        0 <= i < 4 ==> {
            &&& quad_within(#[trigger] quads[i], left, top, width, height)
            &&& quads[i].kind == WgpuQuadKind::Geometric
            &&& quads[i].style.foreground == Some(config.cursor_color)
        });
}

fn stroke_px(v: u32) -> (s: u32)
    ensures
        s == stroke(v as int),
{
    let rounded: u32 = v / 8 + if v % 8 != 0 {
        1
    } else {
        0
    };
    assert(rounded == (v + 7) / 8);
    at_least_one_u32(rounded)
}

/// Adds the cursor's quads.
pub fn append_cursor_quads(
    quads: &mut Vec<WgpuQuadDrawItem>,
    cursor: RenderSurfaceCursorSnapshot,
    config: WgpuRendererConfig,
)
    requires
        cursor_drawn(cursor, config) ==> cursor_fits(cursor, config),
    ensures
        final(quads)@ == old(quads)@ + cursor_quads(cursor, config),
{
    if !cursor.focused || (cursor.blinking && !config.blinking_cursor_visible) {
        assert(quads@ =~= old(quads)@ + cursor_quads(cursor, config));
        return;
    }
    let x = column_left_px(config, cursor.x);
    let y = config.row_top_px(cursor.y);
    let w = at_least_one_u32(config.cell_width_px);
    let h = config.row_height_px(cursor.y);
    let style = TextStyleDto {
        foreground: Some(config.cursor_color),
        background: None,
        bold: false,
        italic: false,
        underline: false,
    };
    let vertical = stroke_px(w);
    let horizontal = stroke_px(h);
    match cursor.shape {
        RenderSurfaceCursorShape::Block => {
            quads.push(WgpuQuadDrawItem::solid_rect(x, y, w, h, style));
        },
        RenderSurfaceCursorShape::Underline => {
            quads.push(WgpuQuadDrawItem::solid_rect(x, y + h.saturating_sub(horizontal), w, horizontal, style));
        },
        RenderSurfaceCursorShape::Beam => {
            quads.push(WgpuQuadDrawItem::solid_rect(x, y, vertical, h, style));
        },
        RenderSurfaceCursorShape::HollowBlock => {
            quads.push(WgpuQuadDrawItem::solid_rect(x, y, w, horizontal, style));
            quads.push(WgpuQuadDrawItem::solid_rect(x, y + h.saturating_sub(horizontal), w, horizontal, style));
            quads.push(WgpuQuadDrawItem::solid_rect(x, y, vertical, h, style));
            quads.push(WgpuQuadDrawItem::solid_rect(x + w.saturating_sub(vertical), y, vertical, h, style));
        },
        RenderSurfaceCursorShape::Hidden => {},
    }
    assert(quads@ =~= old(quads)@ + cursor_quads(cursor, config));
}

// ---------------------------------------------------------------------------
// Geometric glyphs: characters drawn as solid rectangles.
// ---------------------------------------------------------------------------

/// A rectangle inside a glyph's cells, in pixels from their top left.
#[derive(Debug, Clone, Copy, PartialEq, Eq, Structural)]
pub struct CellPixelRect {
    pub x_px: u32,
    pub y_px: u32,
    pub width_px: u32,
    pub height_px: u32,
}

/// The rectangles that draw a character of the terminal's geometric glyph
/// set (box drawing, block elements) in cells of the given pixel size,
/// spanning `cells` cells.
#[derive(Debug, Clone, PartialEq, Eq)]
pub struct GeometricGlyphShape {
    pub c: char,
    pub cell_width_px: u32,
    pub cell_height_px: u32,
    pub cells: u32,
    pub rects: Vec<CellPixelRect>,
}

/// The shapes of the geometric glyphs a frame draws; a character with no
/// shape here is drawn from the font.
#[derive(Debug, Clone, PartialEq, Eq)]
pub struct GeometricGlyphTable {
    pub shapes: Vec<GeometricGlyphShape>,
}

/// A geometric glyph shape seen as plain values.
pub struct ShapeView {
    pub c: char,
    pub cell_width_px: u32,
    pub cell_height_px: u32,
    pub cells: u32,
    pub rects: Seq<CellPixelRect>,
}

impl View for GeometricGlyphShape {
    type V = ShapeView;

    open spec fn view(&self) -> ShapeView {
        ShapeView {
            c: self.c,
            cell_width_px: self.cell_width_px,
            cell_height_px: self.cell_height_px,
            cells: self.cells,
            rects: self.rects@,
        }
    }
}

impl View for GeometricGlyphTable {
    type V = Seq<ShapeView>;

    open spec fn view(&self) -> Seq<ShapeView> {
        self.shapes@.map_values(|shape: GeometricGlyphShape| shape@)
    }
}

/// The rectangles of the first shape for `c` at this cell size and span.
pub open spec fn shape_rects(
    shapes: Seq<ShapeView>,
    c: char,
    cell_width_px: u32,
    cell_height_px: u32,
    cells: u32,
) -> Option<Seq<CellPixelRect>>
    decreases shapes.len(),
{
    if shapes.len() == 0 {
        None
    } else if shapes[0].c == c && shapes[0].cell_width_px == cell_width_px && shapes[0].cell_height_px
        == cell_height_px && shapes[0].cells == cells {
        Some(shapes[0].rects)
    } else {
        shape_rects(shapes.drop_first(), c, cell_width_px, cell_height_px, cells)
    }
}

/// The rectangles of a placed glyph, when it is geometric: its shape in the
/// cell size of its row.
pub open spec fn glyph_rects(
    glyph: WgpuGlyphDrawItem,
    config: WgpuRendererConfig,
    table: Seq<ShapeView>,
) -> Option<Seq<CellPixelRect>> {
    shape_rects(table, glyph.c, config.cell_width_px, row_height(config, glyph.y) as u32, glyph.cell_width)
}

impl GeometricGlyphTable {
    pub fn rects_for(&self, c: char, cell_width_px: u32, cell_height_px: u32, cells: u32) -> (rects: Option<
        &Vec<CellPixelRect>,
    >)
        ensures
            match rects {
                Some(r) => shape_rects(self@, c, cell_width_px, cell_height_px, cells) == Some(r@),
                None => shape_rects(self@, c, cell_width_px, cell_height_px, cells) is None,
            },
    {
        let mut i: usize = 0;
        assert(self@.subrange(0, self@.len() as int) =~= self@);
        while i < self.shapes.len()
            invariant
                i <= self.shapes@.len(),
                shape_rects(self@, c, cell_width_px, cell_height_px, cells) == shape_rects(
                    self@.subrange(i as int, self@.len() as int),
                    c,
                    cell_width_px,
                    cell_height_px,
                    cells,
                ),
            decreases self.shapes@.len() - i,
        {
            let shape = &self.shapes[i];
            proof {
                let rest = self@.subrange(i as int, self@.len() as int);
                assert(rest[0] == shape@);
                assert(rest.drop_first() =~= self@.subrange(i as int + 1, self@.len() as int));
            }
            if shape.c == c && shape.cell_width_px == cell_width_px && shape.cell_height_px == cell_height_px
                && shape.cells == cells {
                return Some(&shape.rects);
            }
            i = i + 1;
        }
        None
    }
}

/// The solid quads of a geometric glyph's rectangles, placed at its cell.
pub open spec fn geometric_quads(
    glyph: WgpuGlyphDrawItem,
    config: WgpuRendererConfig,
    rects: Seq<CellPixelRect>,
) -> Seq<WgpuQuadDrawItem> {
    rects.map_values(
        |r: CellPixelRect|
            solid_rect_quad(
                (column_left(config, glyph.x) + r.x_px) as u32,
                (row_top(config, glyph.y) + r.y_px) as u32,
                r.width_px,
                r.height_px,
                glyph.style,
            ),
    )
}

/// The rectangles of a geometric glyph fit in surface pixels at its cell.
pub open spec fn rects_fit(glyph: WgpuGlyphDrawItem, config: WgpuRendererConfig, rects: Seq<CellPixelRect>) -> bool {
    &&& column_left(config, glyph.x) <= u32::MAX
    &&& forall|i: int|
        0 <= i < rects.len() ==> column_left(config, glyph.x) + (#[trigger] rects[i]).x_px <= u32::MAX
            && row_top(config, glyph.y) + rects[i].y_px <= u32::MAX
}

/// Adds the solid quads of a geometric glyph.
pub fn append_terminal_geometric_glyph_quads(
    quads: &mut Vec<WgpuQuadDrawItem>,
    glyph: WgpuGlyphDrawItem,
    config: WgpuRendererConfig,
    rects: &Vec<CellPixelRect>,
)
    requires
        rects_fit(glyph, config, rects@),
    ensures
        final(quads)@ == old(quads)@ + geometric_quads(glyph, config, rects@),
{
    let glyph_x = glyph.pixel_x(config);
    let glyph_y = glyph.pixel_y(config);
    let mut i: usize = 0;
    while i < rects.len()
        invariant
            i <= rects@.len(),
            glyph_x == column_left(config, glyph.x),
            glyph_y == row_top(config, glyph.y),
            rects_fit(glyph, config, rects@),
            quads@ == old(quads)@ + geometric_quads(glyph, config, rects@.subrange(0, i as int)),
        decreases rects@.len() - i,
    {
        let rect = rects[i];
        assert(column_left(config, glyph.x) + rects@[i as int].x_px <= u32::MAX);
        quads.push(
            WgpuQuadDrawItem::solid_rect(
                glyph_x + rect.x_px,
                glyph_y + rect.y_px,
                rect.width_px,
                rect.height_px,
                glyph.style,
            ),
        );
        assert(geometric_quads(glyph, config, rects@.subrange(0, i as int + 1)) =~= geometric_quads(
            glyph,
            config,
            rects@.subrange(0, i as int),
        ).push(
            solid_rect_quad(
                (column_left(config, glyph.x) + rect.x_px) as u32,
                (row_top(config, glyph.y) + rect.y_px) as u32,
                rect.width_px,
                rect.height_px,
                glyph.style,
            ),
        ));
        i = i + 1;
    }
    assert(rects@.subrange(0, rects@.len() as int) =~= rects@);
}

// ---------------------------------------------------------------------------
// Rows.
// ---------------------------------------------------------------------------

/// The glyphs placed on one row, in the order its runs list them.
#[derive(Debug, Clone, PartialEq, Eq)]
pub struct WgpuDrawRow {
    pub y: u32,
    pub glyphs: Vec<WgpuGlyphDrawItem>,
}

/// A row's glyphs and the quads that draw its backgrounds, glyphs and
/// underlines.
#[derive(Debug, Clone, PartialEq, Eq)]
pub struct WgpuRenderedRow {
    pub draw_row: WgpuDrawRow,
    pub background_quads: Vec<WgpuQuadDrawItem>,
    pub glyph_quads: Vec<WgpuQuadDrawItem>,
    pub underline_quads: Vec<WgpuQuadDrawItem>,
}

/// How many columns the first `n` characters advance.
pub open spec fn chars_advance(chars: Seq<char>, n: int) -> int
    decreases n,
{
    if n <= 0 {
        0
    } else {
        chars_advance(chars, n - 1) + char_cell_width(chars[n - 1])
    }
}

/// The glyph of character `i` of a run on row `y`, placed after the
/// characters before it.
pub open spec fn run_glyph(run_x: u32, text: Seq<char>, style: TextStyleDto, y: u32, i: int) -> WgpuGlyphDrawItem {
    WgpuGlyphDrawItem {
        x: (run_x + chars_advance(text, i)) as u32,
        y,
        c: text[i],
        cell_width: char_cell_width(text[i]),
        style,
    }
}

/// The glyphs of the first `n` characters of a run: each character that
/// takes cells, at the column its predecessors advanced to.
pub open spec fn run_glyphs(run_x: u32, text: Seq<char>, style: TextStyleDto, y: u32, n: int) -> Seq<
    WgpuGlyphDrawItem,
>
    decreases n,
{
    if n <= 0 {
        Seq::empty()
    } else if char_cell_width(text[n - 1]) == 0 {
        run_glyphs(run_x, text, style, y, n - 1)
    } else {
        run_glyphs(run_x, text, style, y, n - 1).push(run_glyph(run_x, text, style, y, n - 1))
    }
}

/// The glyphs of the first `k` runs of a row.
pub open spec fn row_glyphs(runs: Seq<RunView>, y: u32, k: int) -> Seq<WgpuGlyphDrawItem>
    decreases k,
{
    if k <= 0 {
        Seq::empty()
    } else {
        let run = runs[k - 1];
        row_glyphs(runs, y, k - 1) + run_glyphs(run.x, run.text, run.style, y, run.text.len() as int)
    }
}

/// The background quad of a glyph with a background.
pub open spec fn glyph_background(glyph: WgpuGlyphDrawItem, config: WgpuRendererConfig) -> Seq<WgpuQuadDrawItem> {
    if glyph.style.background is Some {
        seq![background_quad(glyph.x, glyph.y, glyph.cell_width, config, glyph.style)]
    } else {
        Seq::empty()
    }
}

/// The quads that draw a glyph: its rectangles when it is geometric, else
/// its font glyph unless it is a space.
pub open spec fn glyph_foreground(
    glyph: WgpuGlyphDrawItem,
    config: WgpuRendererConfig,
    table: Seq<ShapeView>,
) -> Seq<WgpuQuadDrawItem> {
    match glyph_rects(glyph, config, table) {
        Some(rects) => geometric_quads(glyph, config, rects),
        None => if glyph.c != ' ' {
            seq![glyph_quad(glyph, config)]
        } else {
            Seq::empty()
        },
    }
}

/// The underline quad of an underlined glyph.
pub open spec fn glyph_underline(glyph: WgpuGlyphDrawItem, config: WgpuRendererConfig) -> Seq<WgpuQuadDrawItem> {
    if glyph.style.underline {
        seq![underline_quad(glyph.x, glyph.y, glyph.cell_width, config, glyph.style)]
    } else {
        Seq::empty()
    }
}

pub open spec fn backgrounds(glyphs: Seq<WgpuGlyphDrawItem>, config: WgpuRendererConfig) -> Seq<WgpuQuadDrawItem>
    decreases glyphs.len(),
{
    if glyphs.len() == 0 {
        Seq::empty()
    } else {
        backgrounds(glyphs.drop_last(), config) + glyph_background(glyphs.last(), config)
    }
}

pub open spec fn foregrounds(
    glyphs: Seq<WgpuGlyphDrawItem>,
    config: WgpuRendererConfig,
    table: Seq<ShapeView>,
) -> Seq<WgpuQuadDrawItem>
    decreases glyphs.len(),
{
    if glyphs.len() == 0 {
        Seq::empty()
    } else {
        foregrounds(glyphs.drop_last(), config, table) + glyph_foreground(glyphs.last(), config, table)
    }
}

pub open spec fn underlines(glyphs: Seq<WgpuGlyphDrawItem>, config: WgpuRendererConfig) -> Seq<WgpuQuadDrawItem>
    decreases glyphs.len(),
{
    if glyphs.len() == 0 {
        Seq::empty()
    } else {
        underlines(glyphs.drop_last(), config) + glyph_underline(glyphs.last(), config)
    }
}

/// A placed glyph's quads fit in surface pixels.
pub open spec fn glyph_fits(glyph: WgpuGlyphDrawItem, config: WgpuRendererConfig, table: Seq<ShapeView>) -> bool {
    let rects = glyph_rects(glyph, config, table);
    &&& (glyph.style.background is Some || glyph.style.underline || (rects is None && glyph.c != ' '))
        ==> span_fits(config, glyph.x, glyph.cell_width)
    &&& rects matches Some(rs) ==> rects_fit(glyph, config, rs)
}

/// Every run of a row advances within `u32` columns, and every glyph of it
/// fits in surface pixels.
pub open spec fn row_fits(row: RowView, config: WgpuRendererConfig, table: Seq<ShapeView>) -> bool {
    forall|r: int|
        0 <= r < row.runs.len() ==> {
            let run = #[trigger] row.runs[r];
            &&& run.x + chars_advance(run.text, run.text.len() as int) <= u32::MAX
            &&& forall|i: int|
                0 <= i < run.text.len() && char_cell_width(run.text[i]) != 0 ==> glyph_fits(
                    #[trigger] run_glyph(run.x, run.text, run.style, row.y, i),
                    config,
                    table,
                )
        }
}

/// A rendered row as plain values.
pub struct RenderedRowView {
    pub y: u32,
    pub glyphs: Seq<WgpuGlyphDrawItem>,
    pub background_quads: Seq<WgpuQuadDrawItem>,
    pub glyph_quads: Seq<WgpuQuadDrawItem>,
    pub underline_quads: Seq<WgpuQuadDrawItem>,
}

impl View for WgpuRenderedRow {
    type V = RenderedRowView;

    open spec fn view(&self) -> RenderedRowView {
        RenderedRowView {
            y: self.draw_row.y,
            glyphs: self.draw_row.glyphs@,
            background_quads: self.background_quads@,
            glyph_quads: self.glyph_quads@,
            underline_quads: self.underline_quads@,
        }
    }
}

/// What rendering a row gives: its glyphs, and their background, glyph and
/// underline quads.
pub open spec fn rendered_row(row: RowView, config: WgpuRendererConfig, table: Seq<ShapeView>) -> RenderedRowView {
    let glyphs = row_glyphs(row.runs, row.y, row.runs.len() as int);
    RenderedRowView {
        y: row.y,
        glyphs,
        background_quads: backgrounds(glyphs, config),
        glyph_quads: foregrounds(glyphs, config, table),
        underline_quads: underlines(glyphs, config),
    }
}

proof fn lemma_advance_monotone(chars: Seq<char>, i: int, j: int)
    requires
        0 <= i <= j <= chars.len(),
    ensures
        chars_advance(chars, i) <= chars_advance(chars, j),
    decreases j - i,
{
    if i < j {
        lemma_advance_monotone(chars, i, j - 1);
    }
}

/// Adds the quads of one placed glyph.
fn render_glyph(
    glyph: WgpuGlyphDrawItem,
    config: WgpuRendererConfig,
    table: &GeometricGlyphTable,
    background_quads: &mut Vec<WgpuQuadDrawItem>,
    glyph_quads: &mut Vec<WgpuQuadDrawItem>,
    underline_quads: &mut Vec<WgpuQuadDrawItem>,
)
    requires
        glyph_fits(glyph, config, table@),
    ensures
        final(background_quads)@ == old(background_quads)@ + glyph_background(glyph, config),
        final(glyph_quads)@ == old(glyph_quads)@ + glyph_foreground(glyph, config, table@),
        final(underline_quads)@ == old(underline_quads)@ + glyph_underline(glyph, config),
{
    if glyph.style.background.is_some() {
        background_quads.push(WgpuQuadDrawItem::background(glyph.x, glyph.y, glyph.cell_width, config, glyph.style));
    }
    assert(background_quads@ =~= old(background_quads)@ + glyph_background(glyph, config));
    let height = config.row_height_px(glyph.y);
    match table.rects_for(glyph.c, config.cell_width_px, height, glyph.cell_width) {
        Some(rects) => {
            append_terminal_geometric_glyph_quads(glyph_quads, glyph, config, rects);
        },
        None => {
            if glyph.c != ' ' {
                glyph_quads.push(WgpuQuadDrawItem::glyph(glyph, config));
            }
            assert(glyph_quads@ =~= old(glyph_quads)@ + glyph_foreground(glyph, config, table@));
        },
    }
    if glyph.style.underline {
        underline_quads.push(WgpuQuadDrawItem::underline(glyph.x, glyph.y, glyph.cell_width, config, glyph.style));
    }
    assert(underline_quads@ =~= old(underline_quads)@ + glyph_underline(glyph, config));
}

/// Renders one row: places each character that takes cells after the ones
/// before it in its run, and gives the quads of its background, glyph and
/// underline.
pub fn render_row(row: &RenderSurfaceRowSnapshot, config: WgpuRendererConfig, table: &GeometricGlyphTable) -> (rendered:
    WgpuRenderedRow)
    requires
        row_fits(row@, config, table@),
    ensures
        rendered@ == rendered_row(row@, config, table@),
{
    let mut glyphs: Vec<WgpuGlyphDrawItem> = Vec::new();
    let mut background_quads: Vec<WgpuQuadDrawItem> = Vec::new();
    let mut glyph_quads: Vec<WgpuQuadDrawItem> = Vec::new();
    let mut underline_quads: Vec<WgpuQuadDrawItem> = Vec::new();
    let ghost runs = row@.runs;
    let mut r: usize = 0;
    while r < row.runs.len()
        invariant
            r <= runs.len(),
            runs == row@.runs,
            runs.len() == row.runs@.len(),
            row_fits(row@, config, table@),
            glyphs@ == row_glyphs(runs, row.y, r as int),
            background_quads@ == backgrounds(glyphs@, config),
            glyph_quads@ == foregrounds(glyphs@, config, table@),
            underline_quads@ == underlines(glyphs@, config),
        decreases runs.len() - r,
    {
        let run = &row.runs[r];
        let ghost text = run.text@;
        let ghost before = glyphs@;
        assert(runs[r as int] == run@);
        assert(run.x + chars_advance(text, text.len() as int) <= u32::MAX);
        let n = run.text.as_str().unicode_len();
        let mut x: u32 = run.x;
        let mut i: usize = 0;
        while i < n
            invariant
                n == text.len(),
                text == run.text@,
                run@ == runs[r as int],
                r < runs.len(),
                runs == row@.runs,
                row_fits(row@, config, table@),
                i <= n,
                run.x + chars_advance(text, n as int) <= u32::MAX,
                x == run.x + chars_advance(text, i as int),
                glyphs@ == before + run_glyphs(run.x, text, run.style, row.y, i as int),
                background_quads@ == backgrounds(glyphs@, config),
                glyph_quads@ == foregrounds(glyphs@, config, table@),
                underline_quads@ == underlines(glyphs@, config),
            decreases n - i,
        {
            let c = run.text.as_str().get_char(i);
            let cell_width = terminal_char_cell_width(c);
            proof {
                lemma_advance_monotone(text, i as int + 1, n as int);
            }
            if cell_width != 0 {
                let glyph = WgpuGlyphDrawItem { x, y: row.y, c, cell_width, style: run.style };
                assert(glyph == run_glyph(run.x, text, run.style, row.y, i as int));
                assert(glyph_fits(glyph, config, table@));
                let ghost shown = glyphs@;
                glyphs.push(glyph);
                render_glyph(glyph, config, table, &mut background_quads, &mut glyph_quads, &mut underline_quads);
                assert(glyphs@.drop_last() =~= shown);
            }
            x = x + cell_width;
            i = i + 1;
        }
        proof {
            assert(row_glyphs(runs, row.y, r as int + 1) == row_glyphs(runs, row.y, r as int) + run_glyphs(
                run.x,
                text,
                run.style,
                row.y,
                text.len() as int,
            ));
        }
        r = r + 1;
    }
    WgpuRenderedRow {
        draw_row: WgpuDrawRow { y: row.y, glyphs },
        background_quads,
        glyph_quads,
        underline_quads,
    }
}

// ---------------------------------------------------------------------------
// The text of a draw row, and the glyph under a block cursor.
// ---------------------------------------------------------------------------

pub open spec fn blanks(n: int) -> Seq<char> {
    Seq::new(n as nat, |i: int| ' ')
}

/// The characters of a row's glyphs laid on a line: each at its column,
/// spaces over gaps, a later glyph replacing an earlier one at its column.
pub open spec fn draw_row_text(glyphs: Seq<WgpuGlyphDrawItem>) -> Seq<char>
    decreases glyphs.len(),
{
    if glyphs.len() == 0 {
        Seq::empty()
    } else {
        let line = draw_row_text(glyphs.drop_last());
        let glyph = glyphs.last();
        if (glyph.x as int) < line.len() {
            line.update(glyph.x as int, glyph.c)
        } else {
            (line + blanks(glyph.x - line.len())).push(glyph.c)
        }
    }
}

impl WgpuDrawRow {
    pub fn glyphs(&self) -> (glyphs: &[WgpuGlyphDrawItem])
        ensures
            glyphs@ == self.glyphs@,
    {
        self.glyphs.as_slice()
    }

    pub fn text(&self) -> (text: String)
        ensures
            text@ == draw_row_text(self.glyphs@),
    {
        let mut chars: Vec<char> = Vec::new();
        let mut k: usize = 0;
        while k < self.glyphs.len()
            invariant
                k <= self.glyphs@.len(),
                chars@ == draw_row_text(self.glyphs@.subrange(0, k as int)),
            decreases self.glyphs@.len() - k,
        {
            let glyph = self.glyphs[k];
            let ghost line = chars@;
            proof {
                assert(self.glyphs@.subrange(0, k as int + 1).drop_last() =~= self.glyphs@.subrange(0, k as int));
            }
            let index = glyph.x as usize;
            while chars.len() < index
                invariant
                    line.len() <= index ==> chars@ == line + blanks(chars@.len() - line.len()),
                    line.len() > index ==> chars@ == line,
                    chars@.len() <= index || chars@ == line,
                decreases index - chars@.len(),
            {
                chars.push(' ');
                proof {
                    assert(chars@ =~= line + blanks(chars@.len() - line.len()));
                }
            }
            if index < chars.len() {
                chars.set(index, glyph.c);
            } else {
                chars.push(glyph.c);
            }
            proof {
                if (glyph.x as int) < line.len() {
                    assert(chars@ =~= line.update(glyph.x as int, glyph.c));
                } else {
                    assert(chars@ =~= (line + blanks(glyph.x - line.len())).push(glyph.c));
                }
            }
            k = k + 1;
        }
        assert(self.glyphs@.subrange(0, self.glyphs@.len() as int) =~= self.glyphs@);
        let mut text = String::new();
        let mut i: usize = 0;
        while i < chars.len()
            invariant
                i <= chars@.len(),
                text@ == chars@.subrange(0, i as int),
            decreases chars@.len() - i,
        {
            text.push(chars[i]);
            assert(text@ =~= chars@.subrange(0, i as int + 1));
            i = i + 1;
        }
        assert(chars@.subrange(0, chars@.len() as int) =~= chars@);
        text
    }
}

/// The glyph covering column `x`: the first whose cells (at least one) hold
/// it.
pub open spec fn glyph_at_column(glyphs: Seq<WgpuGlyphDrawItem>, x: u32) -> Option<WgpuGlyphDrawItem>
    decreases glyphs.len(),
{
    if glyphs.len() == 0 {
        None
    } else {
        let g = glyphs[0];
        if x >= g.x && (x as int) < sat_add_u32(g.x as int, at_least_one(g.cell_width as int)) {
            Some(g)
        } else {
            glyph_at_column(glyphs.drop_first(), x)
        }
    }
}

/// The glyph under a block cursor, redrawn in the cursor text color.
pub open spec fn cursor_text_glyph(
    glyphs: Option<Seq<WgpuGlyphDrawItem>>,
    cursor: RenderSurfaceCursorSnapshot,
    config: WgpuRendererConfig,
) -> Option<WgpuGlyphDrawItem> {
    if !cursor_drawn(cursor, config) || cursor.shape != RenderSurfaceCursorShape::Block {
        None
    } else {
        match glyphs {
            None => None,
            Some(gs) => match glyph_at_column(gs, cursor.x) {
                None => None,
                Some(g) => if g.c == ' ' {
                    None
                } else {
                    Some(
                        WgpuGlyphDrawItem {
                            style: TextStyleDto {
                                foreground: Some(config.cursor_text_color),
                                background: None,
                                ..g.style
                            },
                            ..g
                        },
                    )
                },
            },
        }
    }
}

/// The quads that redraw the glyph under a block cursor.
pub open spec fn cursor_text_quads(
    glyphs: Option<Seq<WgpuGlyphDrawItem>>,
    cursor: RenderSurfaceCursorSnapshot,
    config: WgpuRendererConfig,
    table: Seq<ShapeView>,
) -> Seq<WgpuQuadDrawItem> {
    match cursor_text_glyph(glyphs, cursor, config) {
        Some(g) => glyph_foreground(g, config, table),
        None => Seq::empty(),
    }
}

fn find_glyph_at_column(glyphs: &[WgpuGlyphDrawItem], x: u32) -> (found: Option<WgpuGlyphDrawItem>)
    ensures
        found == glyph_at_column(glyphs@, x),
{
    let mut k: usize = 0;
    assert(glyphs@.subrange(0, glyphs@.len() as int) =~= glyphs@);
    while k < glyphs.len()
        invariant
            k <= glyphs@.len(),
            glyph_at_column(glyphs@, x) == glyph_at_column(glyphs@.subrange(k as int, glyphs@.len() as int), x),
        decreases glyphs@.len() - k,
    {
        let g = glyphs[k];
        proof {
            let rest = glyphs@.subrange(k as int, glyphs@.len() as int);
            assert(rest[0] == g);
            assert(rest.drop_first() =~= glyphs@.subrange(k as int + 1, glyphs@.len() as int));
        }
        if x >= g.x && x < g.x.saturating_add(at_least_one_u32(g.cell_width)) {
            return Some(g);
        }
        k = k + 1;
    }
    None
}

/// Adds the quads that redraw the glyph under a focused, visible block
/// cursor in the cursor text color.
pub fn append_cursor_text_quads(
    quads: &mut Vec<WgpuQuadDrawItem>,
    row: Option<&WgpuRenderedRow>,
    cursor: RenderSurfaceCursorSnapshot,
    config: WgpuRendererConfig,
    table: &GeometricGlyphTable,
)
    requires
        cursor_text_glyph(
            match row {
                Some(r) => Some(r.draw_row.glyphs@),
                None => None,
            },
            cursor,
            config,
        ) matches Some(g) ==> glyph_fits(g, config, table@),
    ensures
        final(quads)@ == old(quads)@ + cursor_text_quads(
            match row {
                Some(r) => Some(r.draw_row.glyphs@),
                None => None,
            },
            cursor,
            config,
            table@,
        ),
{
    let ghost glyphs = match row {
        Some(r) => Some(r.draw_row.glyphs@),
        None => None,
    };
    if !cursor.focused || cursor.shape != RenderSurfaceCursorShape::Block || (cursor.blinking
        && !config.blinking_cursor_visible) {
        assert(quads@ =~= old(quads)@ + cursor_text_quads(glyphs, cursor, config, table@));
        return;
    }
    let found = match row {
        Some(r) => find_glyph_at_column(r.draw_row.glyphs(), cursor.x),
        None => None,
    };
    let glyph = match found {
        Some(g) => g,
        None => {
            assert(quads@ =~= old(quads)@ + cursor_text_quads(glyphs, cursor, config, table@));
            return;
        },
    };
    if glyph.c == ' ' {
        assert(quads@ =~= old(quads)@ + cursor_text_quads(glyphs, cursor, config, table@));
        return;
    }
    let glyph = WgpuGlyphDrawItem {
        style: TextStyleDto {
            foreground: Some(config.cursor_text_color),
            background: None,
            bold: glyph.style.bold,
            italic: glyph.style.italic,
            underline: glyph.style.underline,
        },
        ..glyph
    };
    let height = config.row_height_px(glyph.y);
    match table.rects_for(glyph.c, config.cell_width_px, height, glyph.cell_width) {
        Some(rects) => {
            append_terminal_geometric_glyph_quads(quads, glyph, config, rects);
        },
        None => {
            quads.push(WgpuQuadDrawItem::glyph(glyph, config));
            assert(quads@ =~= old(quads)@ + cursor_text_quads(glyphs, cursor, config, table@));
        },
    }
}

// ---------------------------------------------------------------------------
// Rendered rows kept in row order.
// ---------------------------------------------------------------------------

pub open spec fn rows_view(rows: Seq<WgpuRenderedRow>) -> Seq<RenderedRowView> {
    rows.map_values(|row: WgpuRenderedRow| row@)
}

/// Rows in strictly increasing row order.
pub open spec fn rows_increasing(rows: Seq<RenderedRowView>) -> bool {
    forall|i: int, j: int| 0 <= i < j < rows.len() ==> (#[trigger] rows[i]).y < (#[trigger] rows[j]).y
}

pub open spec fn has_row(rows: Seq<RenderedRowView>, y: u32) -> bool {
    exists|i: int| 0 <= i < rows.len() && (#[trigger] rows[i]).y == y
}

/// The rows by row number.
pub open spec fn rows_map(rows: Seq<RenderedRowView>) -> Map<u32, RenderedRowView> {
    Map::new(
        |y: u32| has_row(rows, y),
        |y: u32| rows[choose|i: int| 0 <= i < rows.len() && (#[trigger] rows[i]).y == y],
    )
}

pub proof fn lemma_rows_map_at(rows: Seq<RenderedRowView>, i: int)
    requires
        rows_increasing(rows),
        0 <= i < rows.len(),
    ensures
        rows_map(rows).contains_key(rows[i].y),
        rows_map(rows)[rows[i].y] == rows[i],
{
    let y = rows[i].y;
    assert(has_row(rows, y));
    let j = choose|j: int| 0 <= j < rows.len() && (#[trigger] rows[j]).y == y;
    if j != i {
        if j < i {
            assert(rows[j].y < rows[i].y);
        } else {
            assert(rows[i].y < rows[j].y);
        }
    }
}

/// Finds where row `y` is, or would go, among rows in increasing order.
fn row_position(rows: &Vec<WgpuRenderedRow>, y: u32) -> (p: usize)
    requires
        rows_increasing(rows_view(rows@)),
    ensures
        p <= rows@.len(),
        forall|i: int| 0 <= i < p ==> (#[trigger] rows@[i]).draw_row.y < y,
        forall|i: int| p <= i < rows@.len() ==> (#[trigger] rows@[i]).draw_row.y >= y,
{
    let mut p: usize = 0;
    while p < rows.len() && rows[p].draw_row.y < y
        invariant
            p <= rows@.len(),
            rows_increasing(rows_view(rows@)),
            forall|i: int| 0 <= i < p ==> (#[trigger] rows@[i]).draw_row.y < y,
        decreases rows@.len() - p,
    {
        p = p + 1;
    }
    assert forall|i: int| p <= i < rows@.len() implies (#[trigger] rows@[i]).draw_row.y >= y by {
        if i > p {
            assert(rows_view(rows@)[p as int].y < rows_view(rows@)[i].y);
        }
    }
    p
}

/// The rows with row `y` set to `value`, or removed when there is none.
pub open spec fn updated_rows_map(
    rows: Map<u32, RenderedRowView>,
    y: u32,
    value: Option<WgpuRenderedRow>,
) -> Map<u32, RenderedRowView> {
    match value {
        Some(v) => rows.insert(y, v@),
        None => rows.remove(y),
    }
}

/// Sets or removes row `y`, keeping the rows in order.
fn set_row(rows: &mut Vec<WgpuRenderedRow>, y: u32, value: Option<WgpuRenderedRow>)
    requires
        rows_increasing(rows_view(old(rows)@)),
        value matches Some(v) ==> v@.y == y,
    ensures
        rows_increasing(rows_view(final(rows)@)),
        rows_map(rows_view(final(rows)@)) == updated_rows_map(rows_map(rows_view(old(rows)@)), y, value),
{
    let ghost before = rows_view(rows@);
    let p = row_position(rows, y);
    let present = p < rows.len() && rows[p].draw_row.y == y;
    let ghost expected = updated_rows_map(rows_map(before), y, value);
    if present {
        match value {
            Some(v) => {
                rows.set(p, v);
            },
            None => {
                rows.remove(p);
            },
        }
    } else {
        match value {
            Some(v) => {
                rows.insert(p, v);
            },
            None => {},
        }
    }
    let ghost after = rows_view(rows@);
    proof {
        assert forall|i: int, j: int| 0 <= i < j < after.len() implies (#[trigger] after[i]).y < (
        #[trigger] after[j]).y by {
            if present {
                if value is Some {
                    if i != p && j != p {
                        assert(before[i].y < before[j].y);
                    } else if i == p {
                        assert(before[p as int].y < before[j].y);
                    } else {
                        assert(before[i].y < before[p as int].y);
                    }
                } else {
                    let oi = if i < p { i } else { i + 1 };
                    let oj = if j < p { j } else { j + 1 };
                    assert(after[i] == before[oi]);
                    assert(after[j] == before[oj]);
                    assert(before[oi].y < before[oj].y);
                }
            } else if value is Some {
                let oi = if i < p { i } else { i - 1 };
                let oj = if j < p { j } else { j - 1 };
                if i == p {
                    assert(after[j] == before[j - 1]);
                    assert(before[j - 1].y >= y);
                    if j - 1 != p {
                        assert(before[p as int].y < before[j - 1].y);
                        assert(before[p as int].y >= y);
                    }
                } else if j == p {
                    assert(before[oi].y < y);
                } else {
                    assert(before[oi].y < before[oj].y);
                }
            } else {
                assert(before[i].y < before[j].y);
            }
        }
        assert forall|k: u32| #[trigger] rows_map(after).contains_key(k) == expected.contains_key(k)
            && (expected.contains_key(k) ==> rows_map(after)[k] == expected[k]) by {
            if expected.contains_key(k) {
                if k == y {
                    let v = value->0;
                    let at = p as int;
                    assert(after[at] == v@);
                    lemma_rows_map_at(after, at);
                    assert(expected[k] == v@);
                } else {
                    assert(rows_map(before).contains_key(k));
                    assert(has_row(before, k));
                    let i = choose|i: int| 0 <= i < before.len() && (#[trigger] before[i]).y == k;
                    lemma_rows_map_at(before, i);
                    assert(i != p || !present);
                    let ni = if present {
                        if value is Some {
                            i
                        } else if i < p {
                            i
                        } else {
                            i - 1
                        }
                    } else if value is Some {
                        if i < p {
                            i
                        } else {
                            i + 1
                        }
                    } else {
                        i
                    };
                    assert(after[ni] == before[i]);
                    lemma_rows_map_at(after, ni);
                    assert(expected[k] == rows_map(before)[k]);
                }
                assert(rows_map(after).contains_key(k));
            } else {
                if has_row(after, k) {
                    let i = choose|i: int| 0 <= i < after.len() && (#[trigger] after[i]).y == k;
                    if k == y {
                        assert(value is None);
                        if present {
                            let oi = if i < p {
                                i
                            } else {
                                i + 1
                            };
                            assert(after[i] == before[oi]);
                            if oi < p {
                                assert(before[oi].y < before[p as int].y);
                            } else {
                                assert(before[p as int].y < before[oi].y);
                            }
                        } else {
                            assert(after[i] == before[i]);
                            assert(before[i].y >= y);
                            if i > p {
                                assert(before[p as int].y < before[i].y);
                                assert(before[p as int].y >= y);
                            }
                        }
                    } else {
                        let oi = if present {
                            if value is Some {
                                i
                            } else if i < p {
                                i
                            } else {
                                i + 1
                            }
                        } else if value is Some {
                            if i < p {
                                i
                            } else {
                                i - 1
                            }
                        } else {
                            i
                        };
                        assert(before[oi] == after[i]);
                        assert(has_row(before, k));
                        assert(rows_map(before).contains_key(k));
                    }
                }
                assert(!rows_map(after).contains_key(k));
            }
        }
        assert(rows_map(after) =~= expected);
    }
}

// ---------------------------------------------------------------------------
// Pixel rows: rows whose runs carry filled rectangles in virtual pixels.
// ---------------------------------------------------------------------------

/// A filled rectangle in the grid's virtual pixels (eight by sixteen per
/// cell), decoded from the text of a run.
#[derive(Debug, Clone, Copy, PartialEq, Eq, Structural)]
pub struct PixelFillRect {
    pub x_px: u32,
    pub y_px: u32,
    pub width_px: u32,
    pub height_px: u32,
    pub color: RgbaColorDto,
}

/// `a * b`, at most `u32::MAX`.
pub open spec fn sat_mul_u32(a: int, b: int) -> int {
    if a * b > u32::MAX {
        u32::MAX as int
    } else {
        a * b
    }
}

/// The width of the grid in virtual pixels, at least one.
pub open spec fn virtual_width(config: WgpuRendererConfig) -> u32 {
    at_least_one(sat_mul_u32(config.grid_columns as int, 8)) as u32
}

/// The height of the grid in virtual pixels, at least one.
pub open spec fn virtual_height(config: WgpuRendererConfig) -> u32 {
    at_least_one(sat_mul_u32(config.grid_rows as int, 16)) as u32
}

fn saturating_times(a: u32, b: u32) -> (r: u32)
    requires
        b > 0,
    ensures
        r == sat_mul_u32(a as int, b as int),
{
    if a > u32::MAX / b {
        assert(a * b > u32::MAX) by (nonlinear_arith)
            requires
                a > u32::MAX / b,
                b > 0,
        ;
        u32::MAX
    } else {
        assert(a * b <= u32::MAX) by (nonlinear_arith)
            requires
                a <= u32::MAX / b,
                b > 0,
        ;
        a * b
    }
}

impl WgpuRendererConfig {
    pub fn pixel_virtual_width_px(self) -> (width: u32)
        ensures
            width == virtual_width(self),
    {
        at_least_one_u32(saturating_times(self.grid_columns, 8))
    }

    pub fn pixel_virtual_height_px(self) -> (height: u32)
        ensures
            height == virtual_height(self),
    {
        at_least_one_u32(saturating_times(self.grid_rows, 16))
    }
}

/// The quad of a filled rectangle, scaled from virtual pixels to the
/// content area.
pub open spec fn pixel_fill_quad(rect: PixelFillRect, config: WgpuRendererConfig) -> WgpuQuadDrawItem {
    let vw = virtual_width(config);
    let vh = virtual_height(config);
    pixel_rect_quad(
        (config.content_origin_x + scale_virtual_spec(rect.x_px, config.content_width_px, vw)) as u32,
        (config.content_origin_y + scale_virtual_spec(rect.y_px, config.content_height_px, vh)) as u32,
        scale_virtual_spec(rect.width_px, config.content_width_px, vw) as u32,
        scale_virtual_spec(rect.height_px, config.content_height_px, vh) as u32,
        rect.color,
    )
}

/// A filled rectangle's corner fits in surface pixels once scaled.
pub open spec fn pixel_fill_fits(rect: PixelFillRect, config: WgpuRendererConfig) -> bool {
    &&& config.content_origin_x + scale_virtual_spec(rect.x_px, config.content_width_px, virtual_width(config))
        <= u32::MAX
    &&& config.content_origin_y + scale_virtual_spec(rect.y_px, config.content_height_px, virtual_height(config))
        <= u32::MAX
}

/// A video surface's rectangle scaled, like a pixel rectangle, from the
/// grid's virtual pixels to the content area.
pub open spec fn scaled_video_rect(rect: VideoSurfaceRect, config: WgpuRendererConfig) -> VideoSurfaceRect {
    let vw = virtual_width(config);
    let vh = virtual_height(config);
    VideoSurfaceRect {
        x_px: (config.content_origin_x + scale_virtual_spec(rect.x_px, config.content_width_px, vw)) as u32,
        y_px: (config.content_origin_y + scale_virtual_spec(rect.y_px, config.content_height_px, vh)) as u32,
        width_px: scale_virtual_spec(rect.width_px, config.content_width_px, vw) as u32,
        height_px: scale_virtual_spec(rect.height_px, config.content_height_px, vh) as u32,
    }
}

/// A video surface's corner fits in surface pixels once scaled.
pub open spec fn video_rect_fits(rect: VideoSurfaceRect, config: WgpuRendererConfig) -> bool {
    &&& config.content_origin_x + scale_virtual_spec(rect.x_px, config.content_width_px, virtual_width(config))
        <= u32::MAX
    &&& config.content_origin_y + scale_virtual_spec(rect.y_px, config.content_height_px, virtual_height(config))
        <= u32::MAX
}

/// Scales a video surface's rectangle to the content area.
pub fn scale_video_surface_rect(rect: VideoSurfaceRect, config: WgpuRendererConfig) -> (scaled: VideoSurfaceRect)
    requires
        video_rect_fits(rect, config),
    ensures
        scaled == scaled_video_rect(rect, config),
{
    let virtual_width_px = config.pixel_virtual_width_px();
    let virtual_height_px = config.pixel_virtual_height_px();
    VideoSurfaceRect {
        x_px: config.content_origin_x + scale_virtual_px(rect.x_px, config.content_width_px, virtual_width_px),
        y_px: config.content_origin_y + scale_virtual_px(rect.y_px, config.content_height_px, virtual_height_px),
        width_px: scale_virtual_px(rect.width_px, config.content_width_px, virtual_width_px),
        height_px: scale_virtual_px(rect.height_px, config.content_height_px, virtual_height_px),
    }
}

/// Where a video frame is drawn in its surface's rectangle: none when
/// either is empty; else the frame fitted, without stretching, into the
/// rectangle scaled to the content area.
pub fn layout_video_surface_rect(
    rect: VideoSurfaceRect,
    frame_width_px: u32,
    frame_height_px: u32,
    config: WgpuRendererConfig,
) -> (fitted: Option<VideoSurfaceRect>)
    requires
        video_rect_fits(rect, config),
    ensures
        fitted == if rect.width_px == 0 || rect.height_px == 0 || frame_width_px == 0 || frame_height_px == 0 {
            None
        } else {
            Some(fit_video_frame_spec(scaled_video_rect(rect, config), frame_width_px, frame_height_px))
        },
{
    if rect.width_px == 0 || rect.height_px == 0 || frame_width_px == 0 || frame_height_px == 0 {
        return None;
    }
    let scaled = scale_video_surface_rect(rect, config);
    Some(fit_video_frame_rect(scaled, frame_width_px, frame_height_px))
}

/// The quads of the rectangles decoded from a row's runs, in run order.
pub open spec fn pixel_quads(commands: Seq<Option<PixelFillRect>>, config: WgpuRendererConfig) -> Seq<
    WgpuQuadDrawItem,
>
    decreases commands.len(),
{
    if commands.len() == 0 {
        Seq::empty()
    } else {
        pixel_quads(commands.drop_last(), config) + match commands.last() {
            Some(rect) => seq![pixel_fill_quad(rect, config)],
            None => Seq::empty(),
        }
    }
}

/// A row is a pixel row when one of its runs decodes to a rectangle.
pub open spec fn is_pixel_row(commands: Seq<Option<PixelFillRect>>) -> bool {
    exists|i: int| 0 <= i < commands.len() && (#[trigger] commands[i]) is Some
}

pub open spec fn pixel_row_fits(commands: Seq<Option<PixelFillRect>>, config: WgpuRendererConfig) -> bool {
    forall|i: int| 0 <= i < commands.len() ==> (#[trigger] commands[i] matches Some(rect) ==> pixel_fill_fits(rect, config))
}

/// Adds the quads of the rectangles decoded from a row's runs (`commands`
/// holds, for each run, the rectangle its text decodes to), and tells
/// whether there was one.
pub fn append_pixel_rect_quads_from_row(
    quads: &mut Vec<WgpuQuadDrawItem>,
    row: &RenderSurfaceRowSnapshot,
    config: WgpuRendererConfig,
    commands: &Vec<Option<PixelFillRect>>,
) -> (found: bool)
    requires
        commands@.len() == row.runs@.len(),
        pixel_row_fits(commands@, config),
    ensures
        final(quads)@ == old(quads)@ + pixel_quads(commands@, config),
        found == is_pixel_row(commands@),
{
    let mut found = false;
    let mut i: usize = 0;
    let virtual_width_px = config.pixel_virtual_width_px();
    let virtual_height_px = config.pixel_virtual_height_px();
    while i < commands.len()
        invariant
            i <= commands@.len(),
            virtual_width_px == virtual_width(config),
            virtual_height_px == virtual_height(config),
            pixel_row_fits(commands@, config),
            quads@ == old(quads)@ + pixel_quads(commands@.subrange(0, i as int), config),
            found == is_pixel_row(commands@.subrange(0, i as int)),
        decreases commands@.len() - i,
    {
        proof {
            assert(commands@.subrange(0, i as int + 1).drop_last() =~= commands@.subrange(0, i as int));
        }
        match commands[i] {
            Some(rect) => {
                assert(pixel_fill_fits(rect, config));
                let x_px = config.content_origin_x + scale_virtual_px(
                    rect.x_px,
                    config.content_width_px,
                    virtual_width_px,
                );
                let y_px = config.content_origin_y + scale_virtual_px(
                    rect.y_px,
                    config.content_height_px,
                    virtual_height_px,
                );
                let width_px = scale_virtual_px(rect.width_px, config.content_width_px, virtual_width_px);
                let height_px = scale_virtual_px(rect.height_px, config.content_height_px, virtual_height_px);
                quads.push(WgpuQuadDrawItem::pixel_rect(x_px, y_px, width_px, height_px, rect.color));
                found = true;
                assert(commands@.subrange(0, i as int + 1)[i as int] is Some);
            },
            None => {
                proof {
                    if found {
                        let k = choose|k: int|
                            0 <= k < i && (#[trigger] commands@.subrange(0, i as int)[k]) is Some;
                        assert(commands@.subrange(0, i as int + 1)[k] is Some);
                    }
                    if is_pixel_row(commands@.subrange(0, i as int + 1)) {
                        let k = choose|k: int|
                            0 <= k < i + 1 && (#[trigger] commands@.subrange(0, i as int + 1)[k]) is Some;
                        assert(commands@.subrange(0, i as int)[k] is Some);
                    }
                }
            },
        }
        assert(quads@ =~= old(quads)@ + pixel_quads(commands@.subrange(0, i as int + 1), config));
        i = i + 1;
    }
    assert(commands@.subrange(0, commands@.len() as int) =~= commands@);
    found
}

// ---------------------------------------------------------------------------
// Text being composed by an input method, drawn at the cursor.
// ---------------------------------------------------------------------------

/// How many bytes a character takes in UTF-8.
pub open spec fn utf8_len(c: char) -> int {
    if (c as u32) < 0x80 {
        1
    } else if (c as u32) < 0x800 {
        2
    } else if (c as u32) < 0x10000 {
        3
    } else {
        4
    }
}

/// Where character `i` starts in the UTF-8 encoding of `text`.
pub open spec fn byte_offset(text: Seq<char>, i: int) -> int
    decreases i,
{
    if i <= 0 {
        0
    } else {
        byte_offset(text, i - 1) + utf8_len(text[i - 1])
    }
}

fn char_utf8_len(c: char) -> (n: u128)
    ensures
        n == utf8_len(c),
{
    let v = c as u32;
    if v < 0x80 {
        1
    } else if v < 0x800 {
        2
    } else if v < 0x10000 {
        3
    } else {
        4
    }
}

/// The selected byte range of the composed text: the cursor range in order,
/// each end at most the text's length.
pub open spec fn preedit_selection(range: Option<(usize, usize)>, byte_len: int) -> Option<(int, int)> {
    match range {
        None => None,
        Some((a, b)) => Some(
            (min_int(min_int(a as int, b as int), byte_len), min_int(max_int(a as int, b as int), byte_len)),
        ),
    }
}

/// Whether the bytes `start..end` of a character meet a non-empty selection.
pub open spec fn preedit_selected(selection: Option<(int, int)>, start: int, end: int) -> bool {
    match selection {
        Some((s, e)) => s != e && start < e && end > s,
        None => false,
    }
}

/// Composed text is underlined in the cursor color on the surface
/// background; its selection in the cursor text color on the cursor color.
pub open spec fn preedit_style(selected: bool, default_background: RgbColorDto, config: WgpuRendererConfig) -> TextStyleDto {
    if selected {
        TextStyleDto {
            foreground: Some(config.cursor_text_color),
            background: Some(config.cursor_color),
            bold: false,
            italic: false,
            underline: true,
        }
    } else {
        TextStyleDto {
            foreground: Some(config.cursor_color),
            background: Some(default_background),
            bold: false,
            italic: false,
            underline: true,
        }
    }
}

/// Where composition has got to: the next cell, whether it ran off the
/// grid, and the characters placed so far with their rows.
pub struct PreeditLayout {
    pub x: u32,
    pub y: u32,
    pub done: bool,
    pub placed: Seq<(u32, RunView)>,
}

/// Lays out the first `n` characters of composed text from the cursor:
/// characters that take no cell are skipped; one that does not fit on the
/// line wraps to the next; composition stops below the last row.
pub open spec fn preedit_layout(
    text: Seq<char>,
    n: int,
    selection: Option<(int, int)>,
    default_background: RgbColorDto,
    config: WgpuRendererConfig,
    start_x: u32,
    start_y: u32,
) -> PreeditLayout
    decreases n,
{
    if n <= 0 {
        PreeditLayout { x: start_x, y: start_y, done: false, placed: Seq::empty() }
    } else {
        let prev = preedit_layout(text, n - 1, selection, default_background, config, start_x, start_y);
        let c = text[n - 1];
        let w = char_cell_width(c);
        if prev.done || w == 0 {
            prev
        } else {
            let wraps = sat_add_u32(prev.x as int, w as int) > config.grid_columns;
            let x1: u32 = if wraps {
                0
            } else {
                prev.x
            };
            let y1: u32 = if wraps {
                sat_add_u32(prev.y as int, 1) as u32
            } else {
                prev.y
            };
            if y1 >= config.grid_rows {
                PreeditLayout { x: x1, y: y1, done: true, placed: prev.placed }
            } else {
                let start = byte_offset(text, n - 1);
                let style = preedit_style(
                    preedit_selected(selection, start, start + utf8_len(c)),
                    default_background,
                    config,
                );
                let x2 = sat_add_u32(x1 as int, w as int) as u32;
                let next_line = x2 >= config.grid_columns;
                PreeditLayout {
                    x: if next_line {
                        0
                    } else {
                        x2
                    },
                    y: if next_line {
                        sat_add_u32(y1 as int, 1) as u32
                    } else {
                        y1
                    },
                    done: false,
                    placed: prev.placed.push((y1, RunView { x: x1, text: seq![c], style })),
                }
            }
        }
    }
}

/// Placed characters gathered into rows, one row for each run of
/// characters on the same line.
pub open spec fn group_rows(placed: Seq<(u32, RunView)>) -> Seq<RowView>
    decreases placed.len(),
{
    if placed.len() == 0 {
        Seq::empty()
    } else {
        let rows = group_rows(placed.drop_last());
        let (y, run) = placed.last();
        if rows.len() > 0 && rows.last().y == y {
            rows.update(rows.len() - 1, RowView { y, runs: rows.last().runs.push(run) })
        } else {
            rows.push(RowView { y, runs: seq![run] })
        }
    }
}

/// The rows of composed text at the cursor, before rendering.
pub open spec fn preedit_rows(
    preedit: crate::render_surface::PreeditView,
    cursor: RenderSurfaceCursorSnapshot,
    default_background: RgbColorDto,
    config: WgpuRendererConfig,
) -> Seq<RowView> {
    let text = preedit.text;
    if text.len() == 0 || config.grid_columns == 0 || config.grid_rows == 0 {
        Seq::empty()
    } else {
        let selection = preedit_selection(preedit.cursor_range, byte_offset(text, text.len() as int));
        let start_x = if cursor.x < config.grid_columns - 1 {
            cursor.x
        } else {
            (config.grid_columns - 1) as u32
        };
        let start_y = if cursor.y < config.grid_rows - 1 {
            cursor.y
        } else {
            (config.grid_rows - 1) as u32
        };
        group_rows(
            preedit_layout(
                text,
                text.len() as int,
                selection,
                default_background,
                config,
                start_x,
                start_y,
            ).placed,
        )
    }
}

/// The rendered rows of composed text at the cursor.
pub open spec fn ime_rows(
    preedit: crate::render_surface::PreeditView,
    cursor: RenderSurfaceCursorSnapshot,
    default_background: RgbColorDto,
    config: WgpuRendererConfig,
    table: Seq<ShapeView>,
) -> Seq<RenderedRowView> {
    rendered_rows(preedit_rows(preedit, cursor, default_background, config), config, table)
}

/// Each row rendered.
pub open spec fn rendered_rows(rows: Seq<RowView>, config: WgpuRendererConfig, table: Seq<ShapeView>) -> Seq<
    RenderedRowView,
> {
    Seq::new(rows.len(), |i: int| rendered_row(rows[i], config, table))
}

fn byte_length(text: &str) -> (n: u128)
    ensures
        n == byte_offset(text@, text@.len() as int),
{
    let count = text.unicode_len();
    let mut total: u128 = 0;
    let mut i: usize = 0;
    while i < count
        invariant
            count == text@.len(),
            i <= count,
            total == byte_offset(text@, i as int),
            total <= 4 * i,
        decreases count - i,
    {
        total = total + char_utf8_len(text.get_char(i));
        i = i + 1;
    }
    total
}

fn min_u128(a: u128, b: u128) -> (r: u128)
    ensures
        r == min_int(a as int, b as int),
{
    if a <= b {
        a
    } else {
        b
    }
}

/// Every row of composed text fits in surface pixels.
pub open spec fn preedit_fits(
    preedit: PreeditView,
    cursor: RenderSurfaceCursorSnapshot,
    default_background: RgbColorDto,
    config: WgpuRendererConfig,
    table: Seq<ShapeView>,
) -> bool {
    forall|i: int|
        0 <= i < preedit_rows(preedit, cursor, default_background, config).len() ==> row_fits(
            #[trigger] preedit_rows(preedit, cursor, default_background, config)[i],
            config,
            table,
        )
}

/// Renders composed text at the cursor: lays it out from the cursor cell,
/// wrapping at the last column and stopping below the last row, styles the
/// selected characters, and renders each line as a row.
pub fn render_ime_preedit(
    preedit: &RenderSurfaceImePreeditSnapshot,
    cursor: RenderSurfaceCursorSnapshot,
    default_background: RgbColorDto,
    config: WgpuRendererConfig,
    table: &GeometricGlyphTable,
) -> (rows: Vec<WgpuRenderedRow>)
    requires
        preedit_fits(preedit@, cursor, default_background, config, table@),
    ensures
        rows_view(rows@) == ime_rows(preedit@, cursor, default_background, config, table@),
{
    let text = preedit.text.as_str();
    let n = text.unicode_len();
    if n == 0 || config.grid_columns == 0 || config.grid_rows == 0 {
        let empty: Vec<WgpuRenderedRow> = Vec::new();
        assert(rows_view(empty@) =~= ime_rows(preedit@, cursor, default_background, config, table@));
        return empty;
    }
    let byte_len = byte_length(text);
    let selection: Option<(u128, u128)> = match preedit.cursor_range {
        Some((a, b)) => {
            let low = if a <= b {
                a
            } else {
                b
            };
            let high = if a <= b {
                b
            } else {
                a
            };
            Some((min_u128(low as u128, byte_len), min_u128(high as u128, byte_len)))
        },
        None => None,
    };
    let ghost spec_selection = preedit_selection(preedit@.cursor_range, byte_offset(text@, n as int));
    assert(match selection {
        Some((s, e)) => spec_selection == Some((s as int, e as int)),
        None => spec_selection is None,
    });
    let start_x: u32 = if cursor.x < config.grid_columns - 1 {
        cursor.x
    } else {
        config.grid_columns - 1
    };
    let start_y: u32 = if cursor.y < config.grid_rows - 1 {
        cursor.y
    } else {
        config.grid_rows - 1
    };
    let mut x: u32 = start_x;
    let mut y: u32 = start_y;
    let mut offset: u128 = 0;
    let mut done = false;
    let mut lines: Vec<RenderSurfaceRowSnapshot> = Vec::new();
    let mut i: usize = 0;
    while i < n
        invariant
            n == text@.len(),
            text@ == preedit@.text,
            i <= n,
            offset == byte_offset(text@, i as int),
            offset <= 4 * i,
            config.grid_columns > 0,
            config.grid_rows > 0,
            match selection {
                Some((s, e)) => spec_selection == Some((s as int, e as int)),
                None => spec_selection is None,
            },
            ({
                let layout = preedit_layout(
                    text@,
                    i as int,
                    spec_selection,
                    default_background,
                    config,
                    start_x,
                    start_y,
                );
                &&& layout.done == done
                &&& layout.x == x
                &&& layout.y == y
                &&& lines@.map_values(|row: RenderSurfaceRowSnapshot| row@) == group_rows(layout.placed)
            }),
        decreases n - i,
    {
        let c = text.get_char(i);
        let length = char_utf8_len(c);
        let width = terminal_char_cell_width(c);
        let ghost prev = preedit_layout(text@, i as int, spec_selection, default_background, config, start_x, start_y);
        if !done && width != 0 {
            if x.saturating_add(width) > config.grid_columns {
                x = 0;
                y = y.saturating_add(1);
            }
        }
        if !done && width != 0 && y >= config.grid_rows {
            done = true;
        } else if !done && width != 0 {
            let selected = match selection {
                Some((s, e)) => s != e && offset < e && offset + length > s,
                None => false,
            };
            let style = if selected {
                TextStyleDto {
                    foreground: Some(config.cursor_text_color),
                    background: Some(config.cursor_color),
                    bold: false,
                    italic: false,
                    underline: true,
                }
            } else {
                TextStyleDto {
                    foreground: Some(config.cursor_color),
                    background: Some(default_background),
                    bold: false,
                    italic: false,
                    underline: true,
                }
            };
            let mut run_text = String::new();
            run_text.push(c);
            let run = crate::render_surface::RenderSurfaceRunSnapshot { x, text: run_text, style };
            let ghost before = lines@.map_values(|row: RenderSurfaceRowSnapshot| row@);
            proof {
                let next = preedit_layout(
                    text@,
                    i as int + 1,
                    spec_selection,
                    default_background,
                    config,
                    start_x,
                    start_y,
                );
                assert(run@.text =~= seq![c]);
                assert(style == preedit_style(
                    preedit_selected(spec_selection, offset as int, offset as int + utf8_len(c)),
                    default_background,
                    config,
                ));
                assert(next.placed == prev.placed.push((y, run@)));
                assert(next.placed.drop_last() =~= prev.placed);
                assert(before == group_rows(prev.placed));
            }
            let count = lines.len();
            if count > 0 && lines[count - 1].y == y {
                let mut last = lines.pop().unwrap();
                let ghost last_view = last@;
                last.runs.push(run);
                assert(crate::render_surface::runs_view(last.runs@) =~= last_view.runs.push(run@));
                lines.push(last);
                assert(lines@.map_values(|row: RenderSurfaceRowSnapshot| row@) =~= before.update(
                    before.len() - 1,
                    RowView { y, runs: before.last().runs.push(run@) },
                ));
            } else {
                let mut runs = Vec::new();
                runs.push(run);
                let ghost runs_seq = runs@;
                lines.push(RenderSurfaceRowSnapshot { y, runs });
                assert(crate::render_surface::runs_view(runs_seq) =~= seq![run@]);
                assert(lines@.map_values(|row: RenderSurfaceRowSnapshot| row@) =~= before.push(
                    RowView { y, runs: seq![run@] },
                ));
            }
            assert(lines@.map_values(|row: RenderSurfaceRowSnapshot| row@) =~= group_rows(
                preedit_layout(text@, i as int + 1, spec_selection, default_background, config, start_x, start_y).placed,
            ));
            x = x.saturating_add(width);
            if x >= config.grid_columns {
                x = 0;
                y = y.saturating_add(1);
            }
        }
        offset = offset + length;
        i = i + 1;
    }
    let ghost layout_end = preedit_layout(text@, n as int, spec_selection, default_background, config, start_x, start_y);
    assert(lines@.map_values(|row: RenderSurfaceRowSnapshot| row@) == group_rows(layout_end.placed));
    let mut rows: Vec<WgpuRenderedRow> = Vec::new();
    let mut k: usize = 0;
    while k < lines.len()
        invariant
            k <= lines@.len(),
            lines@.map_values(|row: RenderSurfaceRowSnapshot| row@) == preedit_rows(
                preedit@,
                cursor,
                default_background,
                config,
            ),
            forall|j: int|
                0 <= j < preedit_rows(preedit@, cursor, default_background, config).len() ==> row_fits(
                    #[trigger] preedit_rows(preedit@, cursor, default_background, config)[j],
                    config,
                    table@,
                ),
            rows_view(rows@) == rendered_rows(
                preedit_rows(preedit@, cursor, default_background, config).subrange(0, k as int),
                config,
                table@,
            ),
        decreases lines@.len() - k,
    {
        assert(lines@[k as int]@ == preedit_rows(preedit@, cursor, default_background, config)[k as int]);
        let rendered = render_row(&lines[k], config, table);
        assert(rendered@ == rendered_row(
            preedit_rows(preedit@, cursor, default_background, config)[k as int],
            config,
            table@,
        ));
        let ghost old_rows = rows@;
        assert(rows_view(old_rows).len() == old_rows.len());
        assert(old_rows.len() == k);
        rows.push(rendered);
        proof {
            let pr = preedit_rows(preedit@, cursor, default_background, config);
            assert forall|j: int| 0 <= j < k + 1 implies rows_view(rows@)[j] == rendered_row(pr[j], config, table@) by {
                if j < k {
                    assert(rows@[j] == old_rows[j]);
                    assert(rows_view(old_rows)[j] == rendered_rows(pr.subrange(0, k as int), config, table@)[j]);
                }
            }
        }
        assert(rows_view(rows@) =~= rendered_rows(
            preedit_rows(preedit@, cursor, default_background, config).subrange(0, k as int + 1),
            config,
            table@,
        ));
        k = k + 1;
    }
    assert(preedit_rows(preedit@, cursor, default_background, config).subrange(
        0,
        lines@.len() as int,
    ) =~= preedit_rows(preedit@, cursor, default_background, config));
    rows
}

// ---------------------------------------------------------------------------
// Rendering a surface snapshot, row by row where rows were marked dirty.
// ---------------------------------------------------------------------------

/// What a frame needs from outside the renderer: for each row of the
/// snapshot and each of its runs, the rectangle the run's text decodes to
/// when it is a pixel command; and the cell where composed text leaves the
/// cursor.
#[derive(Debug, Clone, PartialEq, Eq)]
pub struct SurfaceDecoding {
    pub pixel_commands: Vec<Vec<Option<PixelFillRect>>>,
    pub preedit_cursor_cell: Option<(u32, u32)>,
}

pub struct DecodingView {
    pub pixel_commands: Seq<Seq<Option<PixelFillRect>>>,
    pub preedit_cursor_cell: Option<(u32, u32)>,
}

impl View for SurfaceDecoding {
    type V = DecodingView;

    open spec fn view(&self) -> DecodingView {
        DecodingView {
            pixel_commands: self.pixel_commands@.map_values(|commands: Vec<Option<PixelFillRect>>| commands@),
            preedit_cursor_cell: self.preedit_cursor_cell,
        }
    }
}

/// The decoding has one entry for each row and, in it, one for each run.
pub open spec fn decoding_matches(snapshot: SurfaceView, decoding: DecodingView) -> bool {
    &&& decoding.pixel_commands.len() == snapshot.rows.len()
    &&& forall|k: int|
        0 <= k < snapshot.rows.len() ==> (#[trigger] decoding.pixel_commands[k]).len()
            == snapshot.rows[k].runs.len()
}

/// The row drawn as text for line `y` among the first `n` rows: the last of
/// them on that line that is no pixel row.
pub open spec fn kept_row_index(
    rows: Seq<RowView>,
    commands: Seq<Seq<Option<PixelFillRect>>>,
    y: u32,
    n: int,
) -> Option<int>
    decreases n,
{
    if n <= 0 {
        None
    } else if !is_pixel_row(commands[n - 1]) && rows[n - 1].y == y {
        Some(n - 1)
    } else {
        kept_row_index(rows, commands, y, n - 1)
    }
}

/// Whether a frame renders every row anew: the snapshot marks no dirty rows,
/// or it is of another target than the last frame.
pub open spec fn full_rerender(snapshot: SurfaceView, last_target_id: Option<RenderTargetId>) -> bool {
    snapshot.dirty_rows.len() == 0 || last_target_id != Some(snapshot.target_id)
}

/// The rendered rows after a frame: every line the frame renders (all lines
/// on a full rerender, else the dirty ones) holds its row rendered anew, or
/// nothing when the snapshot has no text row for it; other lines keep what
/// they held.
pub open spec fn next_rows(
    rows: Map<u32, RenderedRowView>,
    snapshot: SurfaceView,
    decoding: DecodingView,
    last_target_id: Option<RenderTargetId>,
    config: WgpuRendererConfig,
    table: Seq<ShapeView>,
) -> Map<u32, RenderedRowView> {
    let full = full_rerender(snapshot, last_target_id);
    let n = snapshot.rows.len() as int;
    Map::new(
        |y: u32|
            if full || snapshot.dirty_rows.contains(y) {
                kept_row_index(snapshot.rows, decoding.pixel_commands, y, n) is Some
            } else {
                rows.contains_key(y)
            },
        |y: u32|
            if full || snapshot.dirty_rows.contains(y) {
                rendered_row(
                    snapshot.rows[kept_row_index(snapshot.rows, decoding.pixel_commands, y, n)->0],
                    config,
                    table,
                )
            } else {
                rows[y]
            },
    )
}

/// Row `k` of the snapshot is rendered by the frame.
pub open spec fn renders_row(
    snapshot: SurfaceView,
    decoding: DecodingView,
    last_target_id: Option<RenderTargetId>,
    k: int,
) -> bool {
    let y = snapshot.rows[k].y;
    &&& kept_row_index(snapshot.rows, decoding.pixel_commands, y, snapshot.rows.len() as int) == Some(k)
    &&& (full_rerender(snapshot, last_target_id) || snapshot.dirty_rows.contains(y))
}

/// The quads of the pixel rows among the first `n` rows, in row order.
pub open spec fn all_pixel_quads(commands: Seq<Seq<Option<PixelFillRect>>>, config: WgpuRendererConfig, n: int) -> Seq<
    WgpuQuadDrawItem,
>
    decreases n,
{
    if n <= 0 {
        Seq::empty()
    } else {
        all_pixel_quads(commands, config, n - 1) + pixel_quads(commands[n - 1], config)
    }
}

pub open spec fn all_backgrounds(rows: Seq<RenderedRowView>) -> Seq<WgpuQuadDrawItem>
    decreases rows.len(),
{
    if rows.len() == 0 {
        Seq::empty()
    } else {
        all_backgrounds(rows.drop_last()) + rows.last().background_quads
    }
}

pub open spec fn all_foregrounds(rows: Seq<RenderedRowView>) -> Seq<WgpuQuadDrawItem>
    decreases rows.len(),
{
    if rows.len() == 0 {
        Seq::empty()
    } else {
        all_foregrounds(rows.drop_last()) + rows.last().glyph_quads
    }
}

pub open spec fn all_underlines(rows: Seq<RenderedRowView>) -> Seq<WgpuQuadDrawItem>
    decreases rows.len(),
{
    if rows.len() == 0 {
        Seq::empty()
    } else {
        all_underlines(rows.drop_last()) + rows.last().underline_quads
    }
}

/// The rows' quads in drawing order: all backgrounds, then all glyphs, then
/// all underlines.
pub open spec fn layered_quads(rows: Seq<RenderedRowView>) -> Seq<WgpuQuadDrawItem> {
    all_backgrounds(rows) + all_foregrounds(rows) + all_underlines(rows)
}

/// The beam the cursor becomes inside composed text.
pub open spec fn preedit_cursor(cursor: RenderSurfaceCursorSnapshot, cell: (u32, u32)) -> RenderSurfaceCursorSnapshot {
    RenderSurfaceCursorSnapshot {
        x: cell.0,
        y: cell.1,
        focused: cursor.focused,
        shape: RenderSurfaceCursorShape::Beam,
        blinking: false,
    }
}

/// The glyphs of line `y` among rendered rows.
pub open spec fn row_glyphs_at(rows: Map<u32, RenderedRowView>, y: u32) -> Option<Seq<WgpuGlyphDrawItem>> {
    if rows.contains_key(y) {
        Some(rows[y].glyphs)
    } else {
        None
    }
}

/// The quads drawn over the rows: composed text with a beam cursor in it,
/// or the cursor and the glyph under a block cursor.
pub open spec fn overlay_quads(
    snapshot: SurfaceView,
    decoding: DecodingView,
    rows: Map<u32, RenderedRowView>,
    config: WgpuRendererConfig,
    table: Seq<ShapeView>,
) -> Seq<WgpuQuadDrawItem> {
    match (snapshot.cursor, snapshot.ime_preedit) {
        (Some(cursor), Some(preedit)) => layered_quads(
            ime_rows(preedit, cursor, snapshot.default_background, config, table),
        ) + match decoding.preedit_cursor_cell {
            Some(cell) => cursor_quads(preedit_cursor(cursor, cell), config),
            None => Seq::empty(),
        },
        (Some(cursor), None) => cursor_quads(cursor, config) + cursor_text_quads(
            row_glyphs_at(rows, cursor.y),
            cursor,
            config,
            table,
        ),
        _ => Seq::empty(),
    }
}

/// The quads of a frame: the surface background, the pixel rows, the text
/// rows in line order, then what is drawn over them.
pub open spec fn frame_quads(
    snapshot: SurfaceView,
    decoding: DecodingView,
    rows: Seq<RenderedRowView>,
    config: WgpuRendererConfig,
    table: Seq<ShapeView>,
) -> Seq<WgpuQuadDrawItem> {
    seq![surface_background_quad(config, snapshot.default_background)] + all_pixel_quads(
        decoding.pixel_commands,
        config,
        snapshot.rows.len() as int,
    ) + layered_quads(rows) + overlay_quads(snapshot, decoding, rows_map(rows), config, table)
}

/// Everything a frame draws fits in surface pixels: the pixel rows, the
/// rows it renders, composed text, and the cursor.
pub open spec fn frame_fits(
    snapshot: SurfaceView,
    decoding: DecodingView,
    last_target_id: Option<RenderTargetId>,
    rows_after: Map<u32, RenderedRowView>,
    config: WgpuRendererConfig,
    table: Seq<ShapeView>,
) -> bool {
    &&& forall|k: int|
        0 <= k < snapshot.rows.len() ==> pixel_row_fits(#[trigger] decoding.pixel_commands[k], config)
    &&& forall|k: int|
        0 <= k < snapshot.rows.len() && renders_row(snapshot, decoding, last_target_id, k) ==> row_fits(
            #[trigger] snapshot.rows[k],
            config,
            table,
        )
    &&& match (snapshot.cursor, snapshot.ime_preedit) {
        (Some(cursor), Some(preedit)) => {
            &&& preedit_fits(preedit, cursor, snapshot.default_background, config, table)
            &&& decoding.preedit_cursor_cell matches Some(cell) ==> (cursor_drawn(
                preedit_cursor(cursor, cell),
                config,
            ) ==> cursor_fits(preedit_cursor(cursor, cell), config))
        },
        (Some(cursor), None) => {
            &&& cursor_drawn(cursor, config) ==> cursor_fits(cursor, config)
            &&& cursor_text_glyph(row_glyphs_at(rows_after, cursor.y), cursor, config) matches Some(g)
                ==> glyph_fits(g, config, table)
        },
        _ => true,
    }
}

/// The renderer's state: its configuration, how many frames it rendered and
/// of which target and snapshot the last was, the rendered rows in line
/// order, and the quads of the last frame.
pub struct WgpuRendererState {
    pub config: WgpuRendererConfig,
    pub render_count: u64,
    pub last_target_id: Option<RenderTargetId>,
    pub last_seq: Option<SeqNo>,
    pub rendered_rows: Vec<WgpuRenderedRow>,
    pub quads: Vec<WgpuQuadDrawItem>,
}

impl WgpuRendererState {
    /// The rendered rows in line order.
    pub open spec fn rendered(&self) -> Seq<RenderedRowView> {
        rows_view(self.rendered_rows@)
    }

    /// The quads of the last frame.
    pub open spec fn frame(&self) -> Seq<WgpuQuadDrawItem> {
        self.quads@
    }

    pub open spec fn well_formed(&self) -> bool {
        rows_increasing(self.rendered())
    }

    /// A renderer that has drawn nothing yet.
    pub fn new(config: WgpuRendererConfig) -> (state: Self)
        ensures
            state.config == config,
            state.render_count == 0,
            state.last_target_id is None,
            state.last_seq is None,
            state.rendered() == Seq::<RenderedRowView>::empty(),
            state.frame() == Seq::<WgpuQuadDrawItem>::empty(),
            state.well_formed(),
    {
        let state = WgpuRendererState {
            config,
            render_count: 0,
            last_target_id: None,
            last_seq: None,
            rendered_rows: Vec::new(),
            quads: Vec::new(),
        };
        assert(state.rendered() =~= Seq::<RenderedRowView>::empty());
        state
    }

    /// The quads of the last frame.
    pub fn quads(&self) -> (quads: &[WgpuQuadDrawItem])
        ensures
            quads@ == self.frame(),
    {
        self.quads.as_slice()
    }

    /// The rendered rows, in line order.
    pub fn rows(&self) -> (rows: &[WgpuRenderedRow])
        ensures
            rows_view(rows@) == self.rendered(),
    {
        self.rendered_rows.as_slice()
    }

    /// The glyphs of line `y`, when it holds a rendered row.
    pub fn row(&self, y: u32) -> (row: Option<&WgpuDrawRow>)
        requires
            self.well_formed(),
        ensures
            match row {
                Some(r) => rows_map(self.rendered()).contains_key(y) && r.y == y && r.glyphs@ == rows_map(
                    self.rendered(),
                )[y].glyphs,
                None => !rows_map(self.rendered()).contains_key(y),
            },
    {
        let mut k: usize = 0;
        while k < self.rendered_rows.len()
            invariant
                k <= self.rendered_rows@.len(),
                rows_increasing(self.rendered()),
                forall|i: int| 0 <= i < k ==> (#[trigger] self.rendered()[i]).y != y,
            decreases self.rendered_rows@.len() - k,
        {
            if self.rendered_rows[k].draw_row.y == y {
                proof {
                    lemma_rows_map_at(self.rendered(), k as int);
                }
                return Some(&self.rendered_rows[k].draw_row);
            }
            k = k + 1;
        }
        proof {
            if rows_map(self.rendered()).contains_key(y) {
                let i = choose|i: int| 0 <= i < self.rendered().len() && (#[trigger] self.rendered()[i]).y == y;
                assert(self.rendered()[i].y == y);
            }
        }
        None
    }
}

/// The glyphs of the rendered rows in line order.
pub open spec fn all_glyphs(rows: Seq<RenderedRowView>) -> Seq<WgpuGlyphDrawItem>
    decreases rows.len(),
{
    if rows.len() == 0 {
        Seq::empty()
    } else {
        all_glyphs(rows.drop_last()) + rows.last().glyphs
    }
}

impl WgpuRendererState {
    /// The glyphs of the rendered rows, in line order.
    pub fn glyphs(&self) -> (glyphs: Vec<WgpuGlyphDrawItem>)
        ensures
            glyphs@ == all_glyphs(self.rendered()),
    {
        let mut glyphs: Vec<WgpuGlyphDrawItem> = Vec::new();
        let mut k: usize = 0;
        while k < self.rendered_rows.len()
            invariant
                k <= self.rendered_rows@.len(),
                glyphs@ == all_glyphs(self.rendered().subrange(0, k as int)),
            decreases self.rendered_rows@.len() - k,
        {
            let row = &self.rendered_rows[k];
            let ghost before = glyphs@;
            let mut i: usize = 0;
            while i < row.draw_row.glyphs.len()
                invariant
                    i <= row.draw_row.glyphs@.len(),
                    glyphs@ == before + row.draw_row.glyphs@.subrange(0, i as int),
                decreases row.draw_row.glyphs@.len() - i,
            {
                glyphs.push(row.draw_row.glyphs[i]);
                assert(glyphs@ =~= before + row.draw_row.glyphs@.subrange(0, i as int + 1));
                i = i + 1;
            }
            proof {
                let sub = self.rendered().subrange(0, k as int + 1);
                assert(sub.drop_last() =~= self.rendered().subrange(0, k as int));
                assert(sub.last() == row@);
                assert(row.draw_row.glyphs@.subrange(0, row.draw_row.glyphs@.len() as int) =~= row.draw_row.glyphs@);
            }
            k = k + 1;
        }
        assert(self.rendered().subrange(0, self.rendered_rows@.len() as int) =~= self.rendered());
        glyphs
    }

    /// The text of each rendered row, in line order.
    pub fn line_texts(&self) -> (texts: Vec<String>)
        ensures
            texts@.len() == self.rendered().len(),
            forall|i: int| 0 <= i < texts@.len() ==> (#[trigger] texts@[i])@ == draw_row_text(self.rendered()[i].glyphs),
    {
        let mut texts: Vec<String> = Vec::new();
        let mut k: usize = 0;
        while k < self.rendered_rows.len()
            invariant
                k <= self.rendered_rows@.len(),
                texts@.len() == k,
                forall|i: int| 0 <= i < k ==> (#[trigger] texts@[i])@ == draw_row_text(self.rendered()[i].glyphs),
            decreases self.rendered_rows@.len() - k,
        {
            texts.push(self.rendered_rows[k].draw_row.text());
            k = k + 1;
        }
        texts
    }
}

pub proof fn lemma_kept_row_index(
    rows: Seq<RowView>,
    commands: Seq<Seq<Option<PixelFillRect>>>,
    y: u32,
    n: int,
)
    ensures
        kept_row_index(rows, commands, y, n) matches Some(j) ==> 0 <= j < n && rows[j].y == y
            && !is_pixel_row(commands[j]),
    decreases n,
{
    if n > 0 {
        lemma_kept_row_index(rows, commands, y, n - 1);
    }
}

/// The text row for line `y`: the last row on that line that is no pixel
/// row.
fn kept_row(rows: &Vec<RenderSurfaceRowSnapshot>, pixel: &Vec<bool>, y: u32, Ghost(commands): Ghost<
    Seq<Seq<Option<PixelFillRect>>>,
>) -> (found: Option<usize>)
    requires
        pixel@.len() == rows@.len(),
        forall|k: int| 0 <= k < rows@.len() ==> #[trigger] pixel@[k] == is_pixel_row(commands[k]),
    ensures
        match found {
            Some(j) => kept_row_index(
                rows@.map_values(|row: RenderSurfaceRowSnapshot| row@),
                commands,
                y,
                rows@.len() as int,
            ) == Some(j as int),
            None => kept_row_index(
                rows@.map_values(|row: RenderSurfaceRowSnapshot| row@),
                commands,
                y,
                rows@.len() as int,
            ) is None,
        },
{
    let ghost views = rows@.map_values(|row: RenderSurfaceRowSnapshot| row@);
    let mut found: Option<usize> = None;
    let mut k: usize = 0;
    while k < rows.len()
        invariant
            k <= rows@.len(),
            pixel@.len() == rows@.len(),
            views == rows@.map_values(|row: RenderSurfaceRowSnapshot| row@),
            forall|i: int| 0 <= i < rows@.len() ==> #[trigger] pixel@[i] == is_pixel_row(commands[i]),
            match found {
                Some(j) => kept_row_index(views, commands, y, k as int) == Some(j as int),
                None => kept_row_index(views, commands, y, k as int) is None,
            },
        decreases rows@.len() - k,
    {
        if !pixel[k] && rows[k].y == y {
            found = Some(k);
        }
        assert(views[k as int].y == rows@[k as int].y);
        k = k + 1;
    }
    found
}

/// Appends the quads of `source`.
fn append_quads(quads: &mut Vec<WgpuQuadDrawItem>, source: &Vec<WgpuQuadDrawItem>)
    ensures
        final(quads)@ == old(quads)@ + source@,
{
    let mut i: usize = 0;
    while i < source.len()
        invariant
            i <= source@.len(),
            quads@ == old(quads)@ + source@.subrange(0, i as int),
        decreases source@.len() - i,
    {
        quads.push(source[i]);
        assert(quads@ =~= old(quads)@ + source@.subrange(0, i as int + 1));
        i = i + 1;
    }
    assert(source@.subrange(0, source@.len() as int) =~= source@);
}

/// Appends the rows' quads in drawing order: all backgrounds, all glyphs,
/// then all underlines.
fn append_layered_quads(quads: &mut Vec<WgpuQuadDrawItem>, rows: &Vec<WgpuRenderedRow>)
    ensures
        final(quads)@ == old(quads)@ + layered_quads(rows_view(rows@)),
{
    let ghost views = rows_view(rows@);
    let mut k: usize = 0;
    while k < rows.len()
        invariant
            k <= rows@.len(),
            views == rows_view(rows@),
            quads@ == old(quads)@ + all_backgrounds(views.subrange(0, k as int)),
        decreases rows@.len() - k,
    {
        append_quads(quads, &rows[k].background_quads);
        assert(views.subrange(0, k as int + 1).drop_last() =~= views.subrange(0, k as int));
        k = k + 1;
    }
    assert(views.subrange(0, rows@.len() as int) =~= views);
    let ghost after_backgrounds = quads@;
    let mut k: usize = 0;
    while k < rows.len()
        invariant
            k <= rows@.len(),
            views == rows_view(rows@),
            quads@ == after_backgrounds + all_foregrounds(views.subrange(0, k as int)),
        decreases rows@.len() - k,
    {
        append_quads(quads, &rows[k].glyph_quads);
        assert(views.subrange(0, k as int + 1).drop_last() =~= views.subrange(0, k as int));
        k = k + 1;
    }
    let ghost after_glyphs = quads@;
    let mut k: usize = 0;
    while k < rows.len()
        invariant
            k <= rows@.len(),
            views == rows_view(rows@),
            quads@ == after_glyphs + all_underlines(views.subrange(0, k as int)),
        decreases rows@.len() - k,
    {
        append_quads(quads, &rows[k].underline_quads);
        assert(views.subrange(0, k as int + 1).drop_last() =~= views.subrange(0, k as int));
        k = k + 1;
    }
    assert(quads@ =~= old(quads)@ + layered_quads(views));
}

/// Where line `y` is among rows in line order.
fn find_rendered_row(rows: &Vec<WgpuRenderedRow>, y: u32) -> (found: Option<usize>)
    requires
        rows_increasing(rows_view(rows@)),
    ensures
        match found {
            Some(k) => k < rows@.len() && rows@[k as int]@.y == y && rows_map(rows_view(rows@)).contains_key(y)
                && rows_map(rows_view(rows@))[y] == rows@[k as int]@,
            None => !rows_map(rows_view(rows@)).contains_key(y),
        },
{
    let mut k: usize = 0;
    while k < rows.len()
        invariant
            k <= rows@.len(),
            rows_increasing(rows_view(rows@)),
            forall|i: int| 0 <= i < k ==> (#[trigger] rows_view(rows@)[i]).y != y,
        decreases rows@.len() - k,
    {
        if rows[k].draw_row.y == y {
            proof {
                lemma_rows_map_at(rows_view(rows@), k as int);
            }
            return Some(k);
        }
        assert(rows_view(rows@)[k as int].y == rows@[k as int].draw_row.y);
        k = k + 1;
    }
    proof {
        if rows_map(rows_view(rows@)).contains_key(y) {
            let i = choose|i: int| 0 <= i < rows_view(rows@).len() && (#[trigger] rows_view(rows@)[i]).y == y;
            assert(rows_view(rows@)[i].y == y);
        }
    }
    None
}

impl WgpuRendererState {
    /// Renders a surface snapshot. A snapshot of another target than the
    /// last, or one that marks no dirty rows, renders every text row anew;
    /// otherwise only its dirty lines are rendered again (or dropped when it
    /// has no text row for them) and the other rows are kept. Rows whose runs
    /// are pixel commands become filled rectangles. The frame is the surface
    /// background, the rectangles, the rows' backgrounds, glyphs and
    /// underlines in line order, then composed text with a beam cursor in
    /// it, or the cursor with the glyph under a block cursor.
    pub fn render_surface(
        &mut self,
        snapshot: &RenderSurfaceSnapshot,
        decoding: &SurfaceDecoding,
        table: &GeometricGlyphTable,
    )
        requires
            old(self).well_formed(),
            old(self).render_count < u64::MAX,
            decoding_matches(snapshot@, decoding@),
            frame_fits(
                snapshot@,
                decoding@,
                old(self).last_target_id,
                next_rows(
                    rows_map(old(self).rendered()),
                    snapshot@,
                    decoding@,
                    old(self).last_target_id,
                    old(self).config,
                    table@,
                ),
                old(self).config,
                table@,
            ),
        ensures
            final(self).well_formed(),
            final(self).config == old(self).config,
            final(self).render_count == old(self).render_count + 1,
            final(self).last_target_id == Some(snapshot.target_id),
            final(self).last_seq == Some(snapshot.latest_seq),
            rows_map(final(self).rendered()) == next_rows(
                rows_map(old(self).rendered()),
                snapshot@,
                decoding@,
                old(self).last_target_id,
                old(self).config,
                table@,
            ),
            final(self).frame() == frame_quads(snapshot@, decoding@, final(self).rendered(), old(self).config, table@),
    {
        let config = self.config;
        let ghost views = snapshot@.rows;
        let ghost commands = decoding@.pixel_commands;
        let ghost n = views.len() as int;
        let ghost old_rows = rows_map(self.rendered());
        let ghost target = next_rows(old_rows, snapshot@, decoding@, self.last_target_id, config, table@);
        let ghost last_target = self.last_target_id;
        let ghost count = self.render_count;
        assert(frame_fits(snapshot@, decoding@, last_target, target, config, table@));
        let full = snapshot.dirty_rows.len() == 0 || match self.last_target_id {
            Some(t) => t != snapshot.target_id,
            None => true,
        };
        assert(full == full_rerender(snapshot@, last_target));

        // Pixel rows.
        let mut pixel_quads: Vec<WgpuQuadDrawItem> = Vec::new();
        let mut pixel: Vec<bool> = Vec::new();
        let mut k: usize = 0;
        while k < snapshot.rows.len()
            invariant
                k <= snapshot.rows@.len(),
                views == snapshot@.rows,
                commands == decoding@.pixel_commands,
                decoding_matches(snapshot@, decoding@),
                forall|i: int| 0 <= i < views.len() ==> pixel_row_fits(#[trigger] commands[i], config),
                pixel@.len() == k,
                forall|i: int| 0 <= i < k ==> #[trigger] pixel@[i] == is_pixel_row(commands[i]),
                pixel_quads@ == all_pixel_quads(commands, config, k as int),
            decreases snapshot.rows@.len() - k,
        {
            assert(commands[k as int] == decoding.pixel_commands@[k as int]@);
            assert(commands[k as int].len() == views[k as int].runs.len());
            assert(pixel_row_fits(commands[k as int], config));
            let found = append_pixel_rect_quads_from_row(
                &mut pixel_quads,
                &snapshot.rows[k],
                config,
                &decoding.pixel_commands[k],
            );
            pixel.push(found);
            k = k + 1;
        }

        // Text rows.
        if full {
            let mut rows: Vec<WgpuRenderedRow> = Vec::new();
            let mut k: usize = 0;
            assert(rows_view(rows@) =~= Seq::<RenderedRowView>::empty());
            assert forall|y: u32| !rows_map(rows_view(rows@)).contains_key(y) by {}
            assert forall|y: u32| #[trigger] rows_map(rows_view(rows@)).contains_key(y) == (kept_row_index(
                views,
                commands,
                y,
                n,
            ) matches Some(j) && j < 0) by {
                lemma_kept_row_index(views, commands, y, n);
            }
            while k < snapshot.rows.len()
                invariant
                    k <= snapshot.rows@.len(),
                    views == snapshot@.rows,
                    views == snapshot.rows@.map_values(|row: RenderSurfaceRowSnapshot| row@),
                    commands == decoding@.pixel_commands,
                    n == views.len(),
                    full == full_rerender(snapshot@, last_target),
                    full,
                    pixel@.len() == views.len(),
                    forall|i: int| 0 <= i < views.len() ==> #[trigger] pixel@[i] == is_pixel_row(commands[i]),
                    forall|i: int|
                        0 <= i < views.len() && renders_row(snapshot@, decoding@, last_target, i) ==> row_fits(
                            #[trigger] views[i],
                            config,
                            table@,
                        ),
                    rows_increasing(rows_view(rows@)),
                    forall|y: u32|
                        #[trigger] rows_map(rows_view(rows@)).contains_key(y) == (kept_row_index(views, commands, y, n)
                            matches Some(j) && j < k),
                    forall|y: u32|
                        #[trigger] rows_map(rows_view(rows@)).contains_key(y) ==> rows_map(rows_view(rows@))[y]
                            == rendered_row(views[kept_row_index(views, commands, y, n)->0], config, table@),
                decreases snapshot.rows@.len() - k,
            {
                let row = &snapshot.rows[k];
                let y = row.y;
                let ghost before = rows_map(rows_view(rows@));
                let kept = kept_row(&snapshot.rows, &pixel, y, Ghost(commands));
                proof {
                    lemma_kept_row_index(views, commands, y, n);
                }
                let is_kept = match kept {
                    Some(j) => j == k,
                    None => false,
                };
                if is_kept {
                    assert(views[k as int].y == y);
                    assert(renders_row(snapshot@, decoding@, last_target, k as int));
                    let rendered = render_row(row, config, table);
                    set_row(&mut rows, y, Some(rendered));
                }
                proof {
                    assert forall|z: u32| #[trigger] rows_map(rows_view(rows@)).contains_key(z) == (kept_row_index(
                        views,
                        commands,
                        z,
                        n,
                    ) matches Some(j) && j < k + 1) && (rows_map(rows_view(rows@)).contains_key(z) ==> rows_map(
                        rows_view(rows@),
                    )[z] == rendered_row(views[kept_row_index(views, commands, z, n)->0], config, table@)) by {
                        lemma_kept_row_index(views, commands, z, n);
                        if kept_row_index(views, commands, z, n) == Some(k as int) {
                            assert(views[k as int].y == z);
                        }
                    }
                }
                k = k + 1;
            }
            self.rendered_rows = rows;
            proof {
                assert forall|y: u32| #[trigger] rows_map(self.rendered()).contains_key(y) == target.contains_key(y) by {
                    lemma_kept_row_index(views, commands, y, n);
                }
                assert(rows_map(self.rendered()) =~= target);
            }
        } else {
            let mut i: usize = 0;
            while i < snapshot.dirty_rows.len()
                invariant
                    i <= snapshot.dirty_rows@.len(),
                    views == snapshot@.rows,
                    views == snapshot.rows@.map_values(|row: RenderSurfaceRowSnapshot| row@),
                    commands == decoding@.pixel_commands,
                    n == views.len(),
                    full == full_rerender(snapshot@, last_target),
                    !full,
                    self.config == config,
                    self.render_count == count,
                    count < u64::MAX,
                    pixel@.len() == views.len(),
                    forall|j: int| 0 <= j < views.len() ==> #[trigger] pixel@[j] == is_pixel_row(commands[j]),
                    forall|j: int|
                        0 <= j < views.len() && renders_row(snapshot@, decoding@, last_target, j) ==> row_fits(
                            #[trigger] views[j],
                            config,
                            table@,
                        ),
                    self.well_formed(),
                    forall|y: u32|
                        #[trigger] rows_map(self.rendered()).contains_key(y) == if snapshot.dirty_rows@.subrange(
                            0,
                            i as int,
                        ).contains(y) {
                            kept_row_index(views, commands, y, n) is Some
                        } else {
                            old_rows.contains_key(y)
                        },
                    forall|y: u32|
                        #[trigger] rows_map(self.rendered()).contains_key(y) ==> rows_map(self.rendered())[y] == if snapshot.dirty_rows@.subrange(
                            0,
                            i as int,
                        ).contains(y) {
                            rendered_row(views[kept_row_index(views, commands, y, n)->0], config, table@)
                        } else {
                            old_rows[y]
                        },
                decreases snapshot.dirty_rows@.len() - i,
            {
                let y = snapshot.dirty_rows[i];
                let kept = kept_row(&snapshot.rows, &pixel, y, Ghost(commands));
                proof {
                    lemma_kept_row_index(views, commands, y, n);
                    assert(snapshot@.dirty_rows.contains(y)) by {
                        assert(snapshot@.dirty_rows[i as int] == y);
                    }
                }
                match kept {
                    Some(j) => {
                        assert(renders_row(snapshot@, decoding@, last_target, j as int));
                        let rendered = render_row(&snapshot.rows[j], config, table);
                        set_row(&mut self.rendered_rows, y, Some(rendered));
                    },
                    None => {
                        set_row(&mut self.rendered_rows, y, None);
                    },
                }
                proof {
                    let done_before = snapshot.dirty_rows@.subrange(0, i as int);
                    let done_after = snapshot.dirty_rows@.subrange(0, i as int + 1);
                    assert forall|z: u32| #[trigger] done_after.contains(z) == (done_before.contains(z) || z == y) by {
                        if done_after.contains(z) {
                            let w = choose|w: int| 0 <= w < done_after.len() && done_after[w] == z;
                            if w < i {
                                assert(done_before[w] == z);
                            }
                        }
                        if done_before.contains(z) {
                            let w = choose|w: int| 0 <= w < done_before.len() && done_before[w] == z;
                            assert(done_after[w] == z);
                        }
                        if z == y {
                            assert(done_after[i as int] == y);
                        }
                    }
                }
                i = i + 1;
            }
            proof {
                assert(snapshot.dirty_rows@.subrange(0, snapshot.dirty_rows@.len() as int) =~= snapshot.dirty_rows@);
                assert(rows_map(self.rendered()) =~= target);
            }
        }

        // What is drawn over the rows.
        let mut ime: Vec<WgpuRenderedRow> = Vec::new();
        let mut cursor_quads_vec: Vec<WgpuQuadDrawItem> = Vec::new();
        let mut cursor_text_vec: Vec<WgpuQuadDrawItem> = Vec::new();
        match (snapshot.cursor, &snapshot.ime_preedit) {
            (Some(cursor), Some(preedit)) => {
                assert(snapshot@.ime_preedit == Some(preedit@));
                assert(snapshot@.cursor == Some(cursor));
                assert(frame_fits(snapshot@, decoding@, last_target, target, config, table@));
                ime = render_ime_preedit(preedit, cursor, snapshot.default_background, config, table);
                match decoding.preedit_cursor_cell {
                    Some((x, y)) => {
                        let beam = RenderSurfaceCursorSnapshot {
                            x,
                            y,
                            focused: cursor.focused,
                            shape: RenderSurfaceCursorShape::Beam,
                            blinking: false,
                        };
                        append_cursor_quads(&mut cursor_quads_vec, beam, config);
                    },
                    None => {},
                }
            },
            (Some(cursor), None) => {
                append_cursor_quads(&mut cursor_quads_vec, cursor, config);
                let found = find_rendered_row(&self.rendered_rows, cursor.y);
                let row = match found {
                    Some(j) => Some(&self.rendered_rows[j]),
                    None => None,
                };
                append_cursor_text_quads(&mut cursor_text_vec, row, cursor, config, table);
            },
            _ => {},
        }

        let mut quads: Vec<WgpuQuadDrawItem> = Vec::new();
        quads.push(WgpuQuadDrawItem::surface_background(config, snapshot.default_background));
        append_quads(&mut quads, &pixel_quads);
        append_layered_quads(&mut quads, &self.rendered_rows);
        append_layered_quads(&mut quads, &ime);
        append_quads(&mut quads, &cursor_quads_vec);
        append_quads(&mut quads, &cursor_text_vec);
        proof {
            let rendered_now = rows_view(self.rendered_rows@);
            let overlay = overlay_quads(snapshot@, decoding@, rows_map(rendered_now), config, table@);
            match (snapshot@.cursor, snapshot@.ime_preedit) {
                (Some(cursor), None) => {
                    assert(rows_view(ime@) =~= Seq::<RenderedRowView>::empty());
                    assert(layered_quads(rows_view(ime@)) =~= Seq::<WgpuQuadDrawItem>::empty());
                },
                (Some(cursor), Some(preedit)) => {
                    assert(cursor_text_vec@ =~= Seq::<WgpuQuadDrawItem>::empty());
                },
                _ => {
                    assert(rows_view(ime@) =~= Seq::<RenderedRowView>::empty());
                    assert(layered_quads(rows_view(ime@)) =~= Seq::<WgpuQuadDrawItem>::empty());
                },
            }
            assert(quads@ =~= frame_quads(snapshot@, decoding@, rendered_now, config, table@));
        }
        self.render_count = self.render_count + 1;
        self.last_target_id = Some(snapshot.target_id);
        self.last_seq = Some(snapshot.latest_seq);
        self.quads = quads;
    }
}

/// Whether two quad kinds are the same variant, whatever they carry.
pub open spec fn same_kind(a: WgpuQuadKind, b: WgpuQuadKind) -> bool {
    match (a, b) {
        (WgpuQuadKind::Background, WgpuQuadKind::Background) => true,
        (WgpuQuadKind::Glyph { .. }, WgpuQuadKind::Glyph { .. }) => true,
        (WgpuQuadKind::Underline, WgpuQuadKind::Underline) => true,
        (WgpuQuadKind::Geometric, WgpuQuadKind::Geometric) => true,
        (WgpuQuadKind::PixelRect { .. }, WgpuQuadKind::PixelRect { .. }) => true,
        _ => false,
    }
}

/// The quads of the same kind as `kind`, in order.
pub open spec fn quads_like(quads: Seq<WgpuQuadDrawItem>, kind: WgpuQuadKind) -> Seq<WgpuQuadDrawItem>
    decreases quads.len(),
{
    if quads.len() == 0 {
        Seq::empty()
    } else if same_kind(quads.last().kind, kind) {
        quads_like(quads.drop_last(), kind).push(quads.last())
    } else {
        quads_like(quads.drop_last(), kind)
    }
}

fn same_kind_exec(a: WgpuQuadKind, b: WgpuQuadKind) -> (r: bool)
    ensures
        r == same_kind(a, b),
{
    match (a, b) {
        (WgpuQuadKind::Background, WgpuQuadKind::Background) => true,
        (WgpuQuadKind::Glyph { .. }, WgpuQuadKind::Glyph { .. }) => true,
        (WgpuQuadKind::Underline, WgpuQuadKind::Underline) => true,
        (WgpuQuadKind::Geometric, WgpuQuadKind::Geometric) => true,
        (WgpuQuadKind::PixelRect { .. }, WgpuQuadKind::PixelRect { .. }) => true,
        _ => false,
    }
}

fn filter_quads(quads: &Vec<WgpuQuadDrawItem>, kind: WgpuQuadKind) -> (found: Vec<WgpuQuadDrawItem>)
    ensures
        found@ == quads_like(quads@, kind),
{
    let mut found: Vec<WgpuQuadDrawItem> = Vec::new();
    let mut i: usize = 0;
    while i < quads.len()
        invariant
            i <= quads@.len(),
            found@ == quads_like(quads@.subrange(0, i as int), kind),
        decreases quads@.len() - i,
    {
        let quad = quads[i];
        proof {
            assert(quads@.subrange(0, i as int + 1).drop_last() =~= quads@.subrange(0, i as int));
        }
        if same_kind_exec(quad.kind, kind) {
            found.push(quad);
        }
        i = i + 1;
    }
    assert(quads@.subrange(0, quads@.len() as int) =~= quads@);
    found
}

impl WgpuRendererState {
    /// The background quads of the last frame, the surface's first.
    pub fn background_quads(&self) -> (quads: Vec<WgpuQuadDrawItem>)
        ensures
            quads@ == quads_like(self.frame(), WgpuQuadKind::Background),
    {
        filter_quads(&self.quads, WgpuQuadKind::Background)
    }

    /// The font glyph quads of the last frame.
    pub fn glyph_quads(&self) -> (quads: Vec<WgpuQuadDrawItem>)
        ensures
            quads@ == quads_like(self.frame(), WgpuQuadKind::Glyph { c: ' ', bold: false, italic: false }),
    {
        filter_quads(&self.quads, WgpuQuadKind::Glyph { c: ' ', bold: false, italic: false })
    }

    /// The underline quads of the last frame.
    pub fn underline_quads(&self) -> (quads: Vec<WgpuQuadDrawItem>)
        ensures
            quads@ == quads_like(self.frame(), WgpuQuadKind::Underline),
    {
        filter_quads(&self.quads, WgpuQuadKind::Underline)
    }

    /// The solid rectangles of the last frame: geometric glyphs and the
    /// cursor.
    pub fn geometric_quads(&self) -> (quads: Vec<WgpuQuadDrawItem>)
        ensures
            quads@ == quads_like(self.frame(), WgpuQuadKind::Geometric),
    {
        filter_quads(&self.quads, WgpuQuadKind::Geometric)
    }

    /// The filled rectangles of pixel rows in the last frame.
    pub fn pixel_rect_quads(&self) -> (quads: Vec<WgpuQuadDrawItem>)
        ensures
            quads@ == quads_like(
                self.frame(),
                WgpuQuadKind::PixelRect { color: RgbaColorDto { red: 0, green: 0, blue: 0, alpha: 0 } },
            ),
    {
        filter_quads(
            &self.quads,
            WgpuQuadKind::PixelRect { color: RgbaColorDto { red: 0, green: 0, blue: 0, alpha: 0 } },
        )
    }
}

/// The terminal renderer: its state, rendered a snapshot at a time.
pub struct WgpuRendererBackend {
    pub inner: WgpuRendererState,
}

impl WgpuRendererBackend {
    pub fn new(config: WgpuRendererConfig) -> (backend: Self)
        ensures
            backend.inner.config == config,
            backend.inner.render_count == 0,
            backend.inner.last_target_id is None,
            backend.inner.last_seq is None,
            backend.inner.rendered() == Seq::<RenderedRowView>::empty(),
            backend.inner.frame() == Seq::<WgpuQuadDrawItem>::empty(),
            backend.inner.well_formed(),
    {
        WgpuRendererBackend { inner: WgpuRendererState::new(config) }
    }

    pub fn config(&self) -> (config: WgpuRendererConfig)
        ensures
            config == self.inner.config,
    {
        self.inner.config
    }

    pub fn state(&self) -> (state: &WgpuRendererState)
        ensures
            state == &self.inner,
    {
        &self.inner
    }

    /// The quads of the last frame.
    pub fn quads(&self) -> (quads: &[WgpuQuadDrawItem])
        ensures
            quads@ == self.inner.frame(),
    {
        self.inner.quads()
    }

    /// Renders a surface snapshot; see [`WgpuRendererState::render_surface`].
    pub fn render_surface(
        &mut self,
        snapshot: &RenderSurfaceSnapshot,
        decoding: &SurfaceDecoding,
        table: &GeometricGlyphTable,
    )
        requires
            old(self).inner.well_formed(),
            old(self).inner.render_count < u64::MAX,
            decoding_matches(snapshot@, decoding@),
            frame_fits(
                snapshot@,
                decoding@,
                old(self).inner.last_target_id,
                next_rows(
                    rows_map(old(self).inner.rendered()),
                    snapshot@,
                    decoding@,
                    old(self).inner.last_target_id,
                    old(self).inner.config,
                    table@,
                ),
                old(self).inner.config,
                table@,
            ),
        ensures
            final(self).inner.well_formed(),
            final(self).inner.config == old(self).inner.config,
            final(self).inner.render_count == old(self).inner.render_count + 1,
            final(self).inner.last_target_id == Some(snapshot.target_id),
            final(self).inner.last_seq == Some(snapshot.latest_seq),
            rows_map(final(self).inner.rendered()) == next_rows(
                rows_map(old(self).inner.rendered()),
                snapshot@,
                decoding@,
                old(self).inner.last_target_id,
                old(self).inner.config,
                table@,
            ),
            final(self).inner.frame() == frame_quads(
                snapshot@,
                decoding@,
                final(self).inner.rendered(),
                old(self).inner.config,
                table@,
            ),
    {
        self.inner.render_surface(snapshot, decoding, table);
    }
}

// ---------------------------------------------------------------------------
// Laws of incremental rendering.
// ---------------------------------------------------------------------------

/// The rows a snapshot renders to from scratch: each line with a text row
/// holds that row rendered.
pub open spec fn full_rows(
    snapshot: SurfaceView,
    decoding: DecodingView,
    config: WgpuRendererConfig,
    table: Seq<ShapeView>,
) -> Map<u32, RenderedRowView> {
    let n = snapshot.rows.len() as int;
    Map::new(
        |y: u32| kept_row_index(snapshot.rows, decoding.pixel_commands, y, n) is Some,
        |y: u32| rendered(snapshot, decoding, y, config, table),
    )
}

/// Line `y` of a snapshot rendered.
pub open spec fn rendered(
    snapshot: SurfaceView,
    decoding: DecodingView,
    y: u32,
    config: WgpuRendererConfig,
    table: Seq<ShapeView>,
) -> RenderedRowView {
    rendered_row(
        snapshot.rows[kept_row_index(snapshot.rows, decoding.pixel_commands, y, snapshot.rows.len() as int)->0],
        config,
        table,
    )
}

/// The text row a snapshot shows on line `y`, if any.
pub open spec fn text_row_at(snapshot: SurfaceView, decoding: DecodingView, y: u32) -> Option<RowView> {
    match kept_row_index(snapshot.rows, decoding.pixel_commands, y, snapshot.rows.len() as int) {
        Some(k) => Some(snapshot.rows[k]),
        None => None,
    }
}

/// A full rerender forgets what was rendered before: the rows become the
/// snapshot's rows rendered from scratch.
pub proof fn lemma_full_rerender_renders_from_scratch(
    rows: Map<u32, RenderedRowView>,
    snapshot: SurfaceView,
    decoding: DecodingView,
    last_target_id: Option<RenderTargetId>,
    config: WgpuRendererConfig,
    table: Seq<ShapeView>,
)
    requires
        full_rerender(snapshot, last_target_id),
    ensures
        next_rows(rows, snapshot, decoding, last_target_id, config, table) == full_rows(
            snapshot,
            decoding,
            config,
            table,
        ),
{
    assert(next_rows(rows, snapshot, decoding, last_target_id, config, table) =~= full_rows(
        snapshot,
        decoding,
        config,
        table,
    ));
}

/// Rendering only the dirty lines gives what rendering everything gives:
/// when the rows hold an earlier snapshot rendered from scratch, and every
/// line whose text row changed since is marked dirty, the rows after the
/// frame are the new snapshot rendered from scratch.
pub proof fn lemma_dirty_rows_render_like_a_full_frame(
    earlier: SurfaceView,
    earlier_decoding: DecodingView,
    snapshot: SurfaceView,
    decoding: DecodingView,
    last_target_id: Option<RenderTargetId>,
    config: WgpuRendererConfig,
    table: Seq<ShapeView>,
)
    requires
        forall|y: u32|
            !snapshot.dirty_rows.contains(y) ==> #[trigger] text_row_at(earlier, earlier_decoding, y)
                == text_row_at(snapshot, decoding, y),
    ensures
        next_rows(
            full_rows(earlier, earlier_decoding, config, table),
            snapshot,
            decoding,
            last_target_id,
            config,
            table,
        ) == full_rows(snapshot, decoding, config, table),
{
    let before = full_rows(earlier, earlier_decoding, config, table);
    let after = next_rows(before, snapshot, decoding, last_target_id, config, table);
    let expected = full_rows(snapshot, decoding, config, table);
    assert forall|y: u32| #[trigger] after.contains_key(y) == expected.contains_key(y) && (after.contains_key(y)
        ==> after[y] == expected[y]) by {
        if !(full_rerender(snapshot, last_target_id) || snapshot.dirty_rows.contains(y)) {
            assert(text_row_at(earlier, earlier_decoding, y) == text_row_at(snapshot, decoding, y));
        }
    }
    assert(after =~= expected);
}

} // verus!
