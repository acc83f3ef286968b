use vstd::prelude::*;
use crate::colors::{RgbColorDto, TextStyleDto};
use crate::glyph_atlas::{WgpuTerminalGlyphAtlas, WgpuTerminalGlyphAtlasEntry, lookup_entry};
use crate::glyph_key::{WgpuTerminalGlyphIdentity, WgpuTerminalGlyphKey, packed_id_of};
use crate::pipeline_specs::{WGPU_VERTEX_KIND_BACKGROUND, WGPU_VERTEX_KIND_GLYPH, WGPU_VERTEX_KIND_UNDERLINE};

verus! {

/// An RGBA color with 8-bit channels.
#[derive(Debug, Clone, Copy, PartialEq, Eq, Structural)]
pub struct RgbaColorDto {
    pub red: u8,
    pub green: u8,
    pub blue: u8,
    pub alpha: u8,
}

/// What a quad of the terminal draws.
#[derive(Debug, Clone, Copy, PartialEq, Eq, Structural)]
pub enum WgpuQuadKind {
    Background,
    Glyph { c: char, bold: bool, italic: bool },
    Underline,
    Geometric,
    PixelRect { color: RgbaColorDto },
}

/// One quad of a terminal frame in window pixels.
#[derive(Debug, Clone, Copy, PartialEq, Eq)]
pub struct WgpuQuadDrawItem {
    pub kind: WgpuQuadKind,
    pub x_px: u32,
    pub y_px: u32,
    pub width_px: u32,
    pub height_px: u32,
    pub style: TextStyleDto,
    pub alpha: u8,
}

/// A vertex color with 8-bit channels.
#[derive(Debug, Clone, Copy, PartialEq, Eq, Structural)]
pub struct WgpuVertexColor {
    pub red: u8,
    pub green: u8,
    pub blue: u8,
    pub alpha: u8,
}

impl WgpuVertexColor {
    pub fn new(red: u8, green: u8, blue: u8, alpha: u8) -> (color: Self)
        ensures
            color == (WgpuVertexColor { red, green, blue, alpha }),
    {
        WgpuVertexColor { red, green, blue, alpha }
    }

    pub fn white() -> (color: Self)
        ensures
            color == (WgpuVertexColor { red: 255, green: 255, blue: 255, alpha: 255 }),
    {
        Self::new(255, 255, 255, 255)
    }

    pub fn black() -> (color: Self)
        ensures
            color == (WgpuVertexColor { red: 0, green: 0, blue: 0, alpha: 255 }),
    {
        Self::new(0, 0, 0, 255)
    }

    pub fn transparent() -> (color: Self)
        ensures
            color == (WgpuVertexColor { red: 0, green: 0, blue: 0, alpha: 0 }),
    {
        Self::new(0, 0, 0, 0)
    }

    pub fn with_alpha(self, alpha: u8) -> (color: Self)
        ensures
            color == (WgpuVertexColor { alpha, ..self }),
    {
        WgpuVertexColor { alpha, ..self }
    }
}

/// What a vertex belongs to.
#[derive(Debug, Clone, Copy, PartialEq, Eq, Structural)]
pub enum WgpuVertexKind {
    Background,
    Glyph { c: char, bold: bool, italic: bool },
    Underline,
    Geometric,
}

pub open spec fn vertex_kind_of(kind: WgpuQuadKind) -> WgpuVertexKind {
    match kind {
        WgpuQuadKind::Background => WgpuVertexKind::Background,
        WgpuQuadKind::PixelRect { .. } => WgpuVertexKind::Background,
        WgpuQuadKind::Glyph { c, bold, italic } => WgpuVertexKind::Glyph { c, bold, italic },
        WgpuQuadKind::Underline => WgpuVertexKind::Underline,
        WgpuQuadKind::Geometric => WgpuVertexKind::Geometric,
    }
}

/// Background and pixel rectangles draw as backgrounds; the rest as themselves.
pub fn kind_of_quad(kind: WgpuQuadKind) -> (vertex_kind: WgpuVertexKind)
    ensures
        vertex_kind == vertex_kind_of(kind),
{
    match kind {
        WgpuQuadKind::Background => WgpuVertexKind::Background,
        WgpuQuadKind::PixelRect { .. } => WgpuVertexKind::Background,
        WgpuQuadKind::Glyph { c, bold, italic } => WgpuVertexKind::Glyph { c, bold, italic },
        WgpuQuadKind::Underline => WgpuVertexKind::Underline,
        WgpuQuadKind::Geometric => WgpuVertexKind::Geometric,
    }
}

pub open spec fn styled_key(c: char, bold: bool, italic: bool) -> WgpuTerminalGlyphKey {
    WgpuTerminalGlyphKey { identity: WgpuTerminalGlyphIdentity::Character(c), bold, italic }
}

/// The shader's vertex kind and glyph id of a vertex kind: glyphs carry the
/// packed id of their key; underlines and geometric shapes share the
/// underline kind.
pub open spec fn gpu_kind_and_codepoint_spec(kind: WgpuVertexKind) -> (u32, u32) {
    match kind {
        WgpuVertexKind::Background => (0, 0),
        WgpuVertexKind::Glyph { c, bold, italic } => (1, packed_id_of(styled_key(c, bold, italic)) as u32),
        WgpuVertexKind::Underline => (2, 0),
        WgpuVertexKind::Geometric => (2, 0),
    }
}

pub fn gpu_kind_and_codepoint(kind: WgpuVertexKind) -> (r: (u32, u32))
    ensures
        r == gpu_kind_and_codepoint_spec(kind),
{
    match kind {
        WgpuVertexKind::Background => (WGPU_VERTEX_KIND_BACKGROUND, 0),
        WgpuVertexKind::Glyph { c, bold, italic } => (
            WGPU_VERTEX_KIND_GLYPH,
            WgpuTerminalGlyphKey::styled(c, bold, italic).packed_id(),
        ),
        WgpuVertexKind::Underline => (WGPU_VERTEX_KIND_UNDERLINE, 0),
        WgpuVertexKind::Geometric => (WGPU_VERTEX_KIND_UNDERLINE, 0),
    }
}

pub open spec fn color_or_spec(color: Option<RgbColorDto>, fallback: WgpuVertexColor) -> WgpuVertexColor {
    match color {
        Some(c) => WgpuVertexColor { red: c.red, green: c.green, blue: c.blue, alpha: 255 },
        None => fallback,
    }
}

/// An opaque vertex color from `color`, or `fallback` when there is none.
pub fn color_or(color: Option<RgbColorDto>, fallback: WgpuVertexColor) -> (r: WgpuVertexColor)
    ensures
        r == color_or_spec(color, fallback),
{
    match color {
        Some(color) => WgpuVertexColor::new(color.red, color.green, color.blue, 255),
        None => fallback,
    }
}

/// A cell background is drawn in the style's background color (black when
/// the style has none) at the quad's own alpha, so a translucent background
/// stays translucent; every other quad kind leaves the quad's alpha aside.
pub proof fn law_background_quad_keeps_its_alpha(quad: WgpuQuadDrawItem, atlas: WgpuTerminalGlyphAtlas)
    requires
        quad.kind == WgpuQuadKind::Background,
    ensures
        quad_plan_spec(quad, atlas).color == quad_color(quad),
        quad_color(quad).alpha == quad.alpha,
        quad.style.background matches Some(c) ==> quad_color(quad).red == c.red && quad_color(quad).green
            == c.green && quad_color(quad).blue == c.blue,
        quad.style.background is None ==> quad_color(quad).red == 0 && quad_color(quad).green == 0
            && quad_color(quad).blue == 0,
        quad_plan_spec(quad, atlas).x0 == quad.x_px && quad_plan_spec(quad, atlas).y0 == quad.y_px,
        quad_plan_spec(quad, atlas).x1 == quad.x_px + quad.width_px,
        quad_plan_spec(quad, atlas).y1 == quad.y_px + quad.height_px,
{
}

/// The color of a quad: a background takes the style's background (else
/// transparent) at the quad's alpha; text, underlines and shapes take the
/// foreground (else white); a pixel rectangle keeps its own color.
pub open spec fn quad_color(quad: WgpuQuadDrawItem) -> WgpuVertexColor {
    match quad.kind {
        WgpuQuadKind::Background => WgpuVertexColor {
            alpha: quad.alpha,
            ..color_or_spec(
                quad.style.background,
                WgpuVertexColor { red: 0, green: 0, blue: 0, alpha: 0 },
            )
        },
        WgpuQuadKind::PixelRect { color } => WgpuVertexColor {
            red: color.red,
            green: color.green,
            blue: color.blue,
            alpha: color.alpha,
        },
        _ => color_or_spec(
            quad.style.foreground,
            WgpuVertexColor { red: 255, green: 255, blue: 255, alpha: 255 },
        ),
    }
}

pub fn color_of_quad(quad: WgpuQuadDrawItem) -> (color: WgpuVertexColor)
    ensures
        color == quad_color(quad),
{
    match quad.kind {
        WgpuQuadKind::Background => color_or(quad.style.background, WgpuVertexColor::transparent()).with_alpha(
            quad.alpha,
        ),
        WgpuQuadKind::PixelRect { color } => WgpuVertexColor::new(color.red, color.green, color.blue, color.alpha),
        _ => color_or(quad.style.foreground, WgpuVertexColor::white()),
    }
}

/// How many glyph vertices found their glyph in the atlas.
#[derive(Debug, Clone, Copy, Default, PartialEq, Eq)]
pub struct WgpuTerminalGlyphUvMapResult {
    pub glyph_vertices: usize,
    pub mapped_vertices: usize,
    pub missing_vertices: usize,
}

impl WgpuTerminalGlyphUvMapResult {
    /// There were glyph vertices and every one of them was mapped.
    pub fn mapped_all(&self) -> (r: bool)
        ensures
            r == (self.glyph_vertices > 0 && self.mapped_vertices == self.glyph_vertices
                && self.missing_vertices == 0),
    {
        self.glyph_vertices > 0 && self.mapped_vertices == self.glyph_vertices && self.missing_vertices
            == 0
    }

    pub fn has_missing(&self) -> (r: bool)
        ensures
            r == (self.missing_vertices > 0),
    {
        self.missing_vertices > 0
    }
}

/// Maps texture coordinates of glyph quads from an atlas.
#[derive(Debug, Clone, Copy, Default)]
pub struct WgpuTerminalGlyphUvMapper;

impl WgpuTerminalGlyphUvMapper {
    pub fn new() -> (mapper: Self) {
        WgpuTerminalGlyphUvMapper
    }
}

/// One quad ready for the vertex buffer: its shader kind and glyph id, its
/// color, its rectangle in window pixels, and the atlas entry whose texture
/// rectangle it samples (none: the whole texture).
#[derive(Debug, Clone, Copy, PartialEq, Eq)]
pub struct WgpuQuadPlan {
    pub kind: u32,
    pub glyph_codepoint: u32,
    pub color: WgpuVertexColor,
    pub x0: i64,
    pub y0: i64,
    pub x1: i64,
    pub y1: i64,
    pub glyph_entry: Option<WgpuTerminalGlyphAtlasEntry>,
}

/// The atlas entry a quad draws: that of its glyph key, for a glyph quad.
pub open spec fn quad_entry(quad: WgpuQuadDrawItem, atlas: WgpuTerminalGlyphAtlas) -> Option<
    WgpuTerminalGlyphAtlasEntry,
> {
    match quad.kind {
        WgpuQuadKind::Glyph { c, bold, italic } => lookup_entry(atlas.entries@, styled_key(c, bold, italic)),
        _ => None,
    }
}

/// The quad plan of `quad`: a glyph found in the atlas is placed at the
/// quad's corner plus the entry's draw offset, at the entry's draw size (at
/// least 1); anything else covers the quad's own rectangle.
pub open spec fn quad_plan_spec(quad: WgpuQuadDrawItem, atlas: WgpuTerminalGlyphAtlas) -> WgpuQuadPlan {
    let (kind, codepoint) = gpu_kind_and_codepoint_spec(vertex_kind_of(quad.kind));
    let color = quad_color(quad);
    match quad_entry(quad, atlas) {
        Some(entry) => {
            let x0 = quad.x_px as int + entry.draw_offset_x_px as int;
            let y0 = quad.y_px as int + entry.draw_offset_y_px as int;
            WgpuQuadPlan {
                kind,
                glyph_codepoint: codepoint,
                color,
                x0: x0 as i64,
                y0: y0 as i64,
                x1: (x0 + if entry.draw_width_px >= 1 {
                    entry.draw_width_px as int
                } else {
                    1
                }) as i64,
                y1: (y0 + if entry.draw_height_px >= 1 {
                    entry.draw_height_px as int
                } else {
                    1
                }) as i64,
                glyph_entry: Some(entry),
            }
        },
        None => WgpuQuadPlan {
            kind,
            glyph_codepoint: codepoint,
            color,
            x0: quad.x_px as i64,
            y0: quad.y_px as i64,
            x1: (quad.x_px as int + quad.width_px as int) as i64,
            y1: (quad.y_px as int + quad.height_px as int) as i64,
            glyph_entry: None,
        },
    }
}

/// The number of glyph quads among the first `n` quads, and of those found.
pub open spec fn glyph_quad_count(quads: Seq<WgpuQuadDrawItem>, n: int) -> int
    decreases n,
{
    if n <= 0 {
        0
    } else {
        glyph_quad_count(quads, n - 1) + if quads[n - 1].kind is Glyph {
            1int
        } else {
            0int
        }
    }
}

pub open spec fn mapped_quad_count(quads: Seq<WgpuQuadDrawItem>, atlas: WgpuTerminalGlyphAtlas, n: int) -> int
    decreases n,
{
    if n <= 0 {
        0
    } else {
        mapped_quad_count(quads, atlas, n - 1) + if quad_entry(quads[n - 1], atlas) is Some {
            1int
        } else {
            0int
        }
    }
}

proof fn lemma_counts_bounded(quads: Seq<WgpuQuadDrawItem>, atlas: WgpuTerminalGlyphAtlas, n: int)
    requires
        0 <= n <= quads.len(),
    ensures
        0 <= mapped_quad_count(quads, atlas, n) <= glyph_quad_count(quads, n) <= n,
    decreases n,
{
    if n > 0 {
        lemma_counts_bounded(quads, atlas, n - 1);
    }
}

/// Plans the quads of a frame against a glyph atlas, and counts the glyph
/// vertices, the ones whose glyph the atlas has, and the ones it lacks.
pub fn plan_quads(quads: &[WgpuQuadDrawItem], atlas: &WgpuTerminalGlyphAtlas) -> (r: (
    Vec<WgpuQuadPlan>,
    WgpuTerminalGlyphUvMapResult,
))
    requires
        quads@.len() * 4 <= usize::MAX,
    ensures
        r.0@.len() == quads@.len(),
        forall|i: int| 0 <= i < quads@.len() ==> r.0@[i] == quad_plan_spec(#[trigger] quads@[i], *atlas),
        r.1.glyph_vertices == 4 * glyph_quad_count(quads@, quads@.len() as int),
        r.1.mapped_vertices == 4 * mapped_quad_count(quads@, *atlas, quads@.len() as int),
        r.1.missing_vertices == 4 * (glyph_quad_count(quads@, quads@.len() as int) - mapped_quad_count(
            quads@,
            *atlas,
            quads@.len() as int,
        )),
{
    let mut plans: Vec<WgpuQuadPlan> = Vec::new();
    let mut result = WgpuTerminalGlyphUvMapResult { glyph_vertices: 0, mapped_vertices: 0, missing_vertices: 0 };
    let mut i: usize = 0;
    while i < quads.len()
        invariant
            i <= quads@.len(),
            quads@.len() * 4 <= usize::MAX,
            plans@.len() == i,
            forall|j: int| 0 <= j < i ==> plans@[j] == quad_plan_spec(#[trigger] quads@[j], *atlas),
            result.glyph_vertices == 4 * glyph_quad_count(quads@, i as int),
            result.mapped_vertices == 4 * mapped_quad_count(quads@, *atlas, i as int),
            result.missing_vertices == 4 * (glyph_quad_count(quads@, i as int) - mapped_quad_count(
                quads@,
                *atlas,
                i as int,
            )),
        decreases quads@.len() - i,
    {
        proof {
            lemma_counts_bounded(quads@, *atlas, i as int);
        }
        let quad = quads[i];
        let (kind, glyph_codepoint) = gpu_kind_and_codepoint(kind_of_quad(quad.kind));
        let color = color_of_quad(quad);
        let entry = match quad.kind {
            WgpuQuadKind::Glyph { c, bold, italic } => {
                result.glyph_vertices = result.glyph_vertices + 4;
                let entry = atlas.entry_for_key(WgpuTerminalGlyphKey::styled(c, bold, italic));
                match entry {
                    Some(_) => {
                        result.mapped_vertices = result.mapped_vertices + 4;
                    },
                    None => {
                        result.missing_vertices = result.missing_vertices + 4;
                    },
                }
                entry
            },
            _ => None,
        };
        let plan = match entry {
            Some(entry) => {
                let x0: i64 = quad.x_px as i64 + entry.draw_offset_x_px as i64;
                let y0: i64 = quad.y_px as i64 + entry.draw_offset_y_px as i64;
                let w: i64 = if entry.draw_width_px >= 1 {
                    entry.draw_width_px as i64
                } else {
                    1
                };
                let h: i64 = if entry.draw_height_px >= 1 {
                    entry.draw_height_px as i64
                } else {
                    1
                };
                WgpuQuadPlan {
                    kind,
                    glyph_codepoint,
                    color,
                    x0,
                    y0,
                    x1: x0 + w,
                    y1: y0 + h,
                    glyph_entry: Some(entry),
                }
            },
            None => WgpuQuadPlan {
                kind,
                glyph_codepoint,
                color,
                x0: quad.x_px as i64,
                y0: quad.y_px as i64,
                x1: quad.x_px as i64 + quad.width_px as i64,
                y1: quad.y_px as i64 + quad.height_px as i64,
                glyph_entry: None,
            },
        };
        plans.push(plan);
        i = i + 1;
    }
    (plans, result)
}

/// The index list of `quad_count` quads: two triangles per quad over its
/// four vertices, `(0, 1, 2)` and `(0, 2, 3)`.
pub open spec fn quad_index(k: int) -> u32 {
    let base = (k / 6) * 4;
    let corner = k % 6;
    (if corner == 0 || corner == 3 {
        base
    } else if corner == 1 {
        base + 1
    } else if corner == 2 || corner == 4 {
        base + 2
    } else {
        base + 3
    }) as u32
}

pub fn build_quad_indices(quad_count: usize) -> (indices: Vec<u32>)
    requires
        quad_count * 6 <= usize::MAX,
        quad_count * 4 <= u32::MAX + 1,
    ensures
        indices@.len() == quad_count * 6,
        forall|k: int| 0 <= k < indices@.len() ==> #[trigger] indices@[k] == quad_index(k),
{
    let mut indices: Vec<u32> = Vec::new();
    let mut quad_index: usize = 0;
    while quad_index < quad_count
        invariant
            quad_index <= quad_count,
            quad_count * 6 <= usize::MAX,
            quad_count * 4 <= u32::MAX + 1,
            indices@.len() == quad_index * 6,
            forall|k: int| 0 <= k < indices@.len() ==> #[trigger] indices@[k] == crate::quad_plan::quad_index(k),
        decreases quad_count - quad_index,
    {
        assert(quad_index * 4 + 3 <= u32::MAX) by (nonlinear_arith)
            requires
                quad_index < quad_count,
                quad_count * 4 <= u32::MAX + 1,
        ;
        let base: u32 = (quad_index * 4) as u32;
        let ghost start = indices@.len() as int;
        indices.push(base);
        indices.push(base + 1);
        indices.push(base + 2);
        indices.push(base);
        indices.push(base + 2);
        indices.push(base + 3);
        proof {
            assert forall|k: int| 0 <= k < indices@.len() implies #[trigger] indices@[k]
                == crate::quad_plan::quad_index(k) by {
                if k >= start {
                    assert(k / 6 == quad_index as int);
                    assert(k % 6 == k - start);
                }
            }
        }
        quad_index = quad_index + 1;
    }
    indices
}

/// Builds quad index lists, keeping the last one to hand out again while the
/// quad count stays the same.
#[derive(Debug, Clone, Default)]
pub struct WgpuQuadVertexBufferBuilder {
    cached_indices: Option<(usize, Vec<u32>)>,
}

impl WgpuQuadVertexBufferBuilder {
    pub closed spec fn cache_valid(&self) -> bool {
        self.cached_indices matches Some((count, indices)) ==> {
            &&& indices@.len() == count * 6
            &&& forall|k: int| 0 <= k < indices@.len() ==> #[trigger] indices@[k] == quad_index(k)
        }
    }

    pub fn new() -> (builder: Self)
        ensures
            builder.cache_valid(),
    {
        WgpuQuadVertexBufferBuilder { cached_indices: None }
    }

    /// The index list for `quad_count` quads, from the cache when it holds that
    /// count.
    pub fn cached_indices_for_quad_count(&mut self, quad_count: usize) -> (indices: Vec<u32>)
        requires
            old(self).cache_valid(),
            quad_count * 6 <= usize::MAX,
            quad_count * 4 <= u32::MAX + 1,
        ensures
            final(self).cache_valid(),
            indices@.len() == quad_count * 6,
            forall|k: int| 0 <= k < indices@.len() ==> #[trigger] indices@[k] == quad_index(k),
    {
        if let Some((count, indices)) = &self.cached_indices {
            if *count == quad_count {
                let copy = indices.clone();
                assert(copy@ =~= indices@);
                return copy;
            }
        }
        let indices = build_quad_indices(quad_count);
        let copy = indices.clone();
        assert(copy@ =~= indices@);
        self.cached_indices = Some((quad_count, indices));
        copy
    }
}

} // verus!
