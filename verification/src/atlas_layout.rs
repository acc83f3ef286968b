use vstd::prelude::*;

verus! {

/// Grid placement of glyph cells in an atlas texture.
#[derive(Debug, Clone, Copy, PartialEq, Eq)]
pub struct GlyphAtlasGridLayout {
    pub columns: u32,
    pub row_count: u32,
    pub atlas_width: u32,
    pub atlas_height: u32,
    pub glyph_capacity: u32,
}

pub open spec fn min_int(a: int, b: int) -> int {
    if a <= b {
        a
    } else {
        b
    }
}

pub open spec fn max_int(a: int, b: int) -> int {
    if a >= b {
        a
    } else {
        b
    }
}

/// `a / b` rounded up, for `b > 0`.
pub open spec fn ceil_div(a: int, b: int) -> int {
    (a + b - 1) / b
}

/// `v` clamped to the range of `u32`.
pub open spec fn sat_u32(v: int) -> int {
    min_int(v, u32::MAX as int)
}

/// `a - b`, or zero where `b` exceeds `a`.
pub open spec fn sat_sub(a: int, b: int) -> int {
    max_int(a - b, 0)
}

/// Usable extent of the texture once the leading padding is taken off.
pub open spec fn usable_extent(padding_px: int, max_texture_dimension_2d: int) -> int {
    let usable_dimension = max_int(max_texture_dimension_2d, sat_u32(padding_px + 1));
    max_int(sat_sub(usable_dimension, padding_px), 1)
}

pub open spec fn layout_max_columns(
    glyph_count: int,
    cell_stride_width: int,
    padding_px: int,
    max_texture_dimension_2d: int,
) -> int {
    min_int(
        max_int(usable_extent(padding_px, max_texture_dimension_2d) / cell_stride_width, 1),
        max_int(glyph_count, 1),
    )
}

pub open spec fn layout_max_rows(
    cell_stride_height: int,
    padding_px: int,
    max_texture_dimension_2d: int,
) -> int {
    max_int(usable_extent(padding_px, max_texture_dimension_2d) / cell_stride_height, 1)
}

pub open spec fn layout_capacity(
    glyph_count: int,
    cell_stride_width: int,
    cell_stride_height: int,
    padding_px: int,
    max_texture_dimension_2d: int,
) -> int {
    min_int(
        max_int(glyph_count, 1),
        sat_u32(
            layout_max_columns(glyph_count, cell_stride_width, padding_px, max_texture_dimension_2d)
                * layout_max_rows(cell_stride_height, padding_px, max_texture_dimension_2d),
        ),
    )
}

/// The layout that `GlyphAtlasGridLayout::new` computes: as many glyphs as fit
/// in a texture of the given size (at most all of them), in at least the
/// preferred number of columns unless the height forces more, and never more
/// columns than fit in the width.
pub open spec fn grid_layout_spec(
    glyph_count: int,
    preferred_columns: int,
    cell_stride_width: int,
    cell_stride_height: int,
    padding_px: int,
    max_texture_dimension_2d: int,
) -> GlyphAtlasGridLayout {
    let max_columns = layout_max_columns(
        glyph_count,
        cell_stride_width,
        padding_px,
        max_texture_dimension_2d,
    );
    let max_rows = layout_max_rows(cell_stride_height, padding_px, max_texture_dimension_2d);
    let capacity = layout_capacity(
        glyph_count,
        cell_stride_width,
        cell_stride_height,
        padding_px,
        max_texture_dimension_2d,
    );
    let preferred = min_int(max_int(preferred_columns, 1), capacity);
    let min_columns_needed = max_int(ceil_div(capacity, max_rows), 1);
    let columns = max_int(min_int(max_int(preferred, min_columns_needed), max_columns), 1);
    let row_count = ceil_div(capacity, columns);
    GlyphAtlasGridLayout {
        columns: columns as u32,
        row_count: row_count as u32,
        atlas_width: sat_u32(padding_px + sat_u32(columns * cell_stride_width)) as u32,
        atlas_height: sat_u32(padding_px + sat_u32(row_count * cell_stride_height)) as u32,
        glyph_capacity: capacity as u32,
    }
}

fn sat_mul_u32(a: u32, b: u32) -> (r: u32)
    ensures
        r == sat_u32(a * b),
{
    assert((a as u64) * (b as u64) <= u64::MAX) by (nonlinear_arith)
        requires
            a <= u32::MAX,
            b <= u32::MAX,
    ;
    let p: u64 = (a as u64) * (b as u64);
    if p > u32::MAX as u64 {
        u32::MAX
    } else {
        p as u32
    }
}

fn div_ceil_u32(a: u32, b: u32) -> (r: u32)
    requires
        b > 0,
    ensures
        r == ceil_div(a as int, b as int),
{
    let q: u64 = ((a as u64) + (b as u64) - 1) / (b as u64);
    assert(q <= a) by (nonlinear_arith)
        requires
            b >= 1,
            q == (a + b - 1) / (b as int),
    {
        assert((a + b - 1) / (b as int) <= (a + b - 1) / 1) by {
            vstd::arithmetic::div_mod::lemma_div_is_ordered_by_denominator(
                (a + b - 1) as int,
                1,
                b as int,
            );
        }
    }
    q as u32
}

impl GlyphAtlasGridLayout {
    /// Places `glyph_count` glyph cells of the given stride in a texture of at
    /// most `max_texture_dimension_2d` pixels a side.
    pub fn new(
        glyph_count: u32,
        preferred_columns: u32,
        cell_stride_width: u32,
        cell_stride_height: u32,
        padding_px: u32,
        max_texture_dimension_2d: u32,
    ) -> (layout: Self)
        requires
            cell_stride_width > 0,
            cell_stride_height > 0,
        ensures
            layout == grid_layout_spec(
                glyph_count as int,
                preferred_columns as int,
                cell_stride_width as int,
                cell_stride_height as int,
                padding_px as int,
                max_texture_dimension_2d as int,
            ),
    {
        let glyph_count = if glyph_count > 1 {
            glyph_count
        } else {
            1
        };
        let padding_plus_one = padding_px.saturating_add(1);
        let usable_dimension = if max_texture_dimension_2d > padding_plus_one {
            max_texture_dimension_2d
        } else {
            padding_plus_one
        };
        let usable = usable_dimension.saturating_sub(padding_px);
        let usable = if usable > 1 {
            usable
        } else {
            1
        };
        let by_width = usable / cell_stride_width;
        let by_width = if by_width > 1 {
            by_width
        } else {
            1
        };
        let max_columns = if by_width < glyph_count {
            by_width
        } else {
            glyph_count
        };
        let by_height = usable / cell_stride_height;
        let max_rows = if by_height > 1 {
            by_height
        } else {
            1
        };
        let cells = sat_mul_u32(max_columns, max_rows);
        let glyph_capacity = if glyph_count < cells {
            glyph_count
        } else {
            cells
        };
        let preferred = if preferred_columns > 1 {
            preferred_columns
        } else {
            1
        };
        let preferred = if preferred < glyph_capacity {
            preferred
        } else {
            glyph_capacity
        };
        let needed = div_ceil_u32(glyph_capacity, max_rows);
        let min_columns_needed = if needed > 1 {
            needed
        } else {
            1
        };
        let columns = if preferred > min_columns_needed {
            preferred
        } else {
            min_columns_needed
        };
        let columns = if columns < max_columns {
            columns
        } else {
            max_columns
        };
        let columns = if columns > 1 {
            columns
        } else {
            1
        };
        let row_count = div_ceil_u32(glyph_capacity, columns);
        let atlas_width = padding_px.saturating_add(sat_mul_u32(columns, cell_stride_width));
        let atlas_height = padding_px.saturating_add(sat_mul_u32(row_count, cell_stride_height));
        GlyphAtlasGridLayout { columns, row_count, atlas_width, atlas_height, glyph_capacity }
    }
}

/// The grid holds every glyph it admits: at least one glyph, never more than
/// were asked for, and the columns times the rows cover the capacity.
pub proof fn lemma_grid_layout_holds_capacity(
    glyph_count: u32,
    preferred_columns: u32,
    cell_stride_width: u32,
    cell_stride_height: u32,
    padding_px: u32,
    max_texture_dimension_2d: u32,
)
    requires
        cell_stride_width > 0,
        cell_stride_height > 0,
    ensures
        ({
            let layout = grid_layout_spec(
                glyph_count as int,
                preferred_columns as int,
                cell_stride_width as int,
                cell_stride_height as int,
                padding_px as int,
                max_texture_dimension_2d as int,
            );
            &&& 1 <= layout.glyph_capacity <= max_int(glyph_count as int, 1)
            &&& layout.columns >= 1
            &&& (layout.columns as int) * (layout.row_count as int) >= (layout.glyph_capacity as int)
            &&& (layout.row_count as int - 1) * (layout.columns as int) < (layout.glyph_capacity as int)
            &&& layout.atlas_width == sat_u32(
                padding_px + sat_u32((layout.columns as int) * cell_stride_width),
            )
            &&& layout.atlas_height == sat_u32(
                padding_px + sat_u32((layout.row_count as int) * cell_stride_height),
            )
        }),
{
    let max_columns = layout_max_columns(
        glyph_count as int,
        cell_stride_width as int,
        padding_px as int,
        max_texture_dimension_2d as int,
    );
    let max_rows = layout_max_rows(
        cell_stride_height as int,
        padding_px as int,
        max_texture_dimension_2d as int,
    );
    let capacity = layout_capacity(
        glyph_count as int,
        cell_stride_width as int,
        cell_stride_height as int,
        padding_px as int,
        max_texture_dimension_2d as int,
    );
    assert(max_columns >= 1 && max_rows >= 1);
    assert(max_columns * max_rows >= 1) by (nonlinear_arith)
        requires
            max_columns >= 1,
            max_rows >= 1,
    ;
    assert(capacity >= 1);
    let layout = grid_layout_spec(
        glyph_count as int,
        preferred_columns as int,
        cell_stride_width as int,
        cell_stride_height as int,
        padding_px as int,
        max_texture_dimension_2d as int,
    );
    let preferred = min_int(max_int(preferred_columns as int, 1), capacity);
    let min_columns_needed = max_int(ceil_div(capacity, max_rows), 1);
    let columns = max_int(min_int(max_int(preferred, min_columns_needed), max_columns), 1);
    assert(1 <= columns <= u32::MAX);
    assert(columns as u32 as int == columns);
    lemma_ceil_div_bounds(capacity, columns);
    let rows = ceil_div(capacity, columns);
    assert(0 <= rows <= capacity);
    assert(layout.columns as int == columns);
    assert(layout.row_count as int == rows);
    assert(layout.glyph_capacity as int == capacity);
    assert(columns * rows >= capacity && (rows - 1) * columns < capacity) by (nonlinear_arith)
        requires
            rows * columns >= capacity,
            (rows - 1) * columns < capacity,
    ;
}

/// `ceil_div(a, b) * b` covers `a` and `ceil_div(a, b) - 1` rows do not.
pub proof fn lemma_ceil_div_bounds(a: int, b: int)
    requires
        a >= 0,
        b >= 1,
    ensures
        ceil_div(a, b) * b >= a,
        (ceil_div(a, b) - 1) * b < a,
        0 <= ceil_div(a, b) <= a,
{
    let q = (a + b - 1) / b;
    let r = (a + b - 1) % b;
    vstd::arithmetic::div_mod::lemma_fundamental_div_mod(a + b - 1, b);
    assert(0 <= r < b);
    assert(q * b + r == a + b - 1) by (nonlinear_arith)
        requires
            a + b - 1 == b * q + r,
    ;
    assert(q * b >= a) by (nonlinear_arith)
        requires
            q * b + r == a + b - 1,
            r < b,
    ;
    assert((q - 1) * b < a) by (nonlinear_arith)
        requires
            q * b + r == a + b - 1,
            r >= 0,
    ;
    assert(q >= 0) by (nonlinear_arith)
        requires
            q * b + r == a + b - 1,
            r < b,
            a >= 0,
            b >= 1,
    ;
    assert(q <= a) by (nonlinear_arith)
        requires
            (q - 1) * b < a,
            b >= 1,
            a >= 0,
            q >= 0,
    ;
}

/// Neither side of the atlas exceeds the texture limit, unless one padded cell
/// alone does: then that side holds a single cell.
pub proof fn lemma_grid_layout_extent(
    glyph_count: u32,
    preferred_columns: u32,
    cell_stride_width: u32,
    cell_stride_height: u32,
    padding_px: u32,
    max_texture_dimension_2d: u32,
)
    requires
        cell_stride_width > 0,
        cell_stride_height > 0,
        padding_px < max_texture_dimension_2d,
    ensures
        ({
            let layout = grid_layout_spec(
                glyph_count as int,
                preferred_columns as int,
                cell_stride_width as int,
                cell_stride_height as int,
                padding_px as int,
                max_texture_dimension_2d as int,
            );
            &&& layout.atlas_width <= max_int(
                max_texture_dimension_2d as int,
                padding_px + cell_stride_width,
            )
            &&& layout.atlas_height <= max_int(
                max_texture_dimension_2d as int,
                padding_px + cell_stride_height,
            )
        }),
{
    let usable = usable_extent(padding_px as int, max_texture_dimension_2d as int);
    assert(usable == max_texture_dimension_2d - padding_px);
    let w = cell_stride_width as int;
    let h = cell_stride_height as int;
    let by_width = usable / w;
    let by_height = usable / h;
    assert(by_width * w <= usable && by_width >= 0 && usable - by_width * w < w) by (nonlinear_arith)
        requires
            w >= 1,
            usable >= 1,
            by_width == usable / w,
    {
        vstd::arithmetic::div_mod::lemma_fundamental_div_mod(usable, w);
    }
    assert(by_height * h <= usable && by_height >= 0 && usable - by_height * h < h) by (nonlinear_arith)
        requires
            h >= 1,
            usable >= 1,
            by_height == usable / h,
    {
        vstd::arithmetic::div_mod::lemma_fundamental_div_mod(usable, h);
    }
    assert(usable < w ==> by_width == 0) by {
        if usable < w {
            vstd::arithmetic::div_mod::lemma_basic_div(usable, w);
        }
    }
    assert(usable < h ==> by_height == 0) by {
        if usable < h {
            vstd::arithmetic::div_mod::lemma_basic_div(usable, h);
        }
    }
    let max_columns = layout_max_columns(
        glyph_count as int,
        w,
        padding_px as int,
        max_texture_dimension_2d as int,
    );
    let max_rows = layout_max_rows(h, padding_px as int, max_texture_dimension_2d as int);
    assert(max_rows == max_int(by_height, 1));
    assert(1 <= max_columns <= max_int(by_width, 1));
    let capacity = layout_capacity(
        glyph_count as int,
        w,
        h,
        padding_px as int,
        max_texture_dimension_2d as int,
    );
    assert(max_columns * max_rows >= 1) by (nonlinear_arith)
        requires
            max_columns >= 1,
            max_rows >= 1,
    ;
    assert(1 <= capacity <= max_columns * max_rows);
    let layout = grid_layout_spec(
        glyph_count as int,
        preferred_columns as int,
        w,
        h,
        padding_px as int,
        max_texture_dimension_2d as int,
    );
    let needed = ceil_div(capacity, max_rows);
    lemma_ceil_div_bounds(capacity, max_rows);
    assert(needed <= max_columns) by (nonlinear_arith)
        requires
            (needed - 1) * max_rows < capacity,
            capacity <= max_columns * max_rows,
            max_rows >= 1,
    ;
    let columns = layout.columns as int;
    assert(max_int(needed, 1) <= columns <= max_columns);
    if usable >= w {
        assert(by_width >= 1) by (nonlinear_arith)
            requires
                usable >= w,
                usable - by_width * w < w,
                by_width >= 0,
        ;
        assert(columns * w <= usable) by (nonlinear_arith)
            requires
                columns <= by_width,
                by_width * w <= usable,
                w >= 1,
                columns >= 1,
        ;
    } else {
        assert(columns == 1);
    }
    let rows = ceil_div(capacity, columns);
    lemma_ceil_div_bounds(capacity, columns);
    assert(rows <= max_rows) by (nonlinear_arith)
        requires
            (rows - 1) * columns < capacity,
            capacity <= needed * max_rows,
            needed <= columns,
            max_rows >= 1,
            columns >= 1,
            capacity >= 0,
    {
        lemma_ceil_div_bounds(capacity, max_rows);
    }
    if usable >= h {
        assert(by_height >= 1) by (nonlinear_arith)
            requires
                usable >= h,
                usable - by_height * h < h,
                by_height >= 0,
        ;
        assert(rows * h <= usable) by (nonlinear_arith)
            requires
                rows <= by_height,
                by_height * h <= usable,
                h >= 1,
                rows >= 0,
        ;
    } else {
        assert(rows <= 1);
        assert(rows * h <= h) by (nonlinear_arith)
            requires
                0 <= rows <= 1,
                h >= 1,
        ;
    }
}

/// When one padded cell fits in the texture, the whole atlas fits in it too:
/// neither side exceeds the texture limit.
pub proof fn lemma_grid_layout_fits_texture(
    glyph_count: u32,
    preferred_columns: u32,
    cell_stride_width: u32,
    cell_stride_height: u32,
    padding_px: u32,
    max_texture_dimension_2d: u32,
)
    requires
        cell_stride_width > 0,
        cell_stride_height > 0,
        padding_px + cell_stride_width <= max_texture_dimension_2d,
        padding_px + cell_stride_height <= max_texture_dimension_2d,
    ensures
        ({
            let layout = grid_layout_spec(
                glyph_count as int,
                preferred_columns as int,
                cell_stride_width as int,
                cell_stride_height as int,
                padding_px as int,
                max_texture_dimension_2d as int,
            );
            &&& layout.atlas_width <= max_texture_dimension_2d
            &&& layout.atlas_height <= max_texture_dimension_2d
        }),
{
    lemma_grid_layout_extent(
        glyph_count,
        preferred_columns,
        cell_stride_width,
        cell_stride_height,
        padding_px,
        max_texture_dimension_2d,
    );
}

} // verus!
