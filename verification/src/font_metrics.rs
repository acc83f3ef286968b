use vstd::prelude::*;

verus! {

/// Size of one terminal cell and the baseline within it, in pixels.
#[derive(Debug, Clone, Copy, PartialEq, Eq)]
pub struct WgpuCrossfontCellMetrics {
    cell_width_px: u32,
    cell_height_px: u32,
    baseline_y_px: i32,
}

/// Position and thickness of the underline within a cell, in pixels.
#[derive(Debug, Clone, Copy, PartialEq, Eq)]
pub struct WgpuCrossfontUnderlineMetrics {
    offset_y_px: u32,
    thickness_px: u32,
}

/// Position and thickness of the strikeout line within a cell, in pixels.
#[derive(Debug, Clone, Copy, PartialEq, Eq)]
pub struct WgpuCrossfontStrikeoutMetrics {
    offset_y_px: u32,
    thickness_px: u32,
}

impl WgpuCrossfontStrikeoutMetrics {
    pub closed spec fn spec_offset_y_px(self) -> u32 {
        self.offset_y_px
    }

    pub closed spec fn spec_thickness_px(self) -> u32 {
        self.thickness_px
    }

    pub fn new(offset_y_px: u32, thickness_px: u32) -> (metrics: Self)
        ensures
            metrics.spec_offset_y_px() == offset_y_px,
            metrics.spec_thickness_px() == thickness_px,
    {
        WgpuCrossfontStrikeoutMetrics { offset_y_px, thickness_px }
    }

    pub fn offset_y_px(self) -> (r: u32)
        ensures
            r == self.spec_offset_y_px(),
    {
        self.offset_y_px
    }

    pub fn thickness_px(self) -> (r: u32)
        ensures
            r == self.spec_thickness_px(),
    {
        self.thickness_px
    }
}

impl WgpuCrossfontUnderlineMetrics {
    pub closed spec fn spec_offset_y_px(self) -> u32 {
        self.offset_y_px
    }

    pub closed spec fn spec_thickness_px(self) -> u32 {
        self.thickness_px
    }

    pub fn new(offset_y_px: u32, thickness_px: u32) -> (metrics: Self)
        ensures
            metrics.spec_offset_y_px() == offset_y_px,
            metrics.spec_thickness_px() == thickness_px,
    {
        WgpuCrossfontUnderlineMetrics { offset_y_px, thickness_px }
    }

    pub fn offset_y_px(self) -> (r: u32)
        ensures
            r == self.spec_offset_y_px(),
    {
        self.offset_y_px
    }

    pub fn thickness_px(self) -> (r: u32)
        ensures
            r == self.spec_thickness_px(),
    {
        self.thickness_px
    }
}

impl WgpuCrossfontCellMetrics {
    pub closed spec fn spec_cell_width_px(self) -> u32 {
        self.cell_width_px
    }

    pub closed spec fn spec_cell_height_px(self) -> u32 {
        self.cell_height_px
    }

    pub closed spec fn spec_baseline_y_px(self) -> i32 {
        self.baseline_y_px
    }

    pub fn new(cell_width_px: u32, cell_height_px: u32, baseline_y_px: i32) -> (metrics: Self)
        ensures
            metrics.spec_cell_width_px() == cell_width_px,
            metrics.spec_cell_height_px() == cell_height_px,
            metrics.spec_baseline_y_px() == baseline_y_px,
    {
        WgpuCrossfontCellMetrics { cell_width_px, cell_height_px, baseline_y_px }
    }

    pub fn cell_width_px(self) -> (r: u32)
        ensures
            r == self.spec_cell_width_px(),
    {
        self.cell_width_px
    }

    pub fn cell_height_px(self) -> (r: u32)
        ensures
            r == self.spec_cell_height_px(),
    {
        self.cell_height_px
    }

    pub fn baseline_y_px(self) -> (r: i32)
        ensures
            r == self.spec_baseline_y_px(),
    {
        self.baseline_y_px
    }
}

/// Line thickness used when the font gives no metrics: one sixteenth of the
/// cell height, rounded up, and at least one pixel.
pub open spec fn fallback_thickness(cell_height_px: int) -> int {
    let t = (cell_height_px + 15) / 16;
    if t >= 1 {
        t
    } else {
        1
    }
}

fn fallback_thickness_px(cell_height_px: u32) -> (r: u32)
    ensures
        r == fallback_thickness(cell_height_px as int),
        1 <= r <= 0x1000_0000,
{
    let t: u32 = cell_height_px / 16 + if cell_height_px % 16 == 0 {
        0
    } else {
        1
    };
    if t >= 1 {
        t
    } else {
        1
    }
}

/// Underline used when the font gives no metrics: `thickness + 1` pixels above
/// the bottom of the cell (or at its top when the cell is too short).
pub fn fallback_underline_metrics(cell_height_px: u32) -> (metrics: WgpuCrossfontUnderlineMetrics)
    ensures
        metrics.spec_thickness_px() == fallback_thickness(cell_height_px as int),
        metrics.spec_offset_y_px() == if cell_height_px >= fallback_thickness(cell_height_px as int) + 1 {
            cell_height_px - fallback_thickness(cell_height_px as int) - 1
        } else {
            0
        },
{
    let thickness_px = fallback_thickness_px(cell_height_px);
    WgpuCrossfontUnderlineMetrics::new(
        cell_height_px.saturating_sub(thickness_px.saturating_add(1)),
        thickness_px,
    )
}

/// Strikeout used when the font gives no metrics: nine sixteenths down the
/// cell.
pub fn fallback_strikeout_metrics(cell_height_px: u32) -> (metrics: WgpuCrossfontStrikeoutMetrics)
    ensures
        metrics.spec_thickness_px() == fallback_thickness(cell_height_px as int),
        metrics.spec_offset_y_px() == (if cell_height_px as int * 9 <= u32::MAX {
            cell_height_px as int * 9
        } else {
            u32::MAX as int
        }) / 16,
{
    let thickness_px = fallback_thickness_px(cell_height_px);
    let nine: u64 = (cell_height_px as u64) * 9;
    let scaled: u32 = if nine > u32::MAX as u64 {
        u32::MAX
    } else {
        nine as u32
    };
    WgpuCrossfontStrikeoutMetrics::new(scaled / 16, thickness_px)
}

/// Weight used for bold text.
#[derive(Debug, Clone, Copy, PartialEq, Eq, Structural)]
pub enum WgpuTerminalFontWeight {
    Normal,
    Medium,
    Semibold,
    Bold,
}

impl WgpuTerminalFontWeight {
    pub fn default_bold() -> (weight: Self)
        ensures
            weight == WgpuTerminalFontWeight::Semibold,
    {
        WgpuTerminalFontWeight::Semibold
    }
}

/// A font face by family and optional style name.
#[derive(Debug, Clone)]
pub struct WgpuCrossfontFontFace {
    pub family: String,
    pub style: Option<String>,
}

/// The faces of the four terminal styles, the fallback families and the bold
/// weight.
#[derive(Debug, Clone)]
pub struct WgpuCrossfontFontFaces {
    pub normal: WgpuCrossfontFontFace,
    pub bold: Option<WgpuCrossfontFontFace>,
    pub italic: Option<WgpuCrossfontFontFace>,
    pub bold_italic: Option<WgpuCrossfontFontFace>,
    pub fallbacks: Vec<String>,
    pub bold_weight: WgpuTerminalFontWeight,
}

/// Which face serves a style: the face configured for it, else for bold
/// italic the bold face, then the italic face, and in the end the normal face.
pub open spec fn face_for_style_spec(
    faces: WgpuCrossfontFontFaces,
    bold: bool,
    italic: bool,
) -> WgpuCrossfontFontFace {
    if !bold && !italic {
        faces.normal
    } else if bold && !italic {
        match faces.bold {
            Some(f) => f,
            None => faces.normal,
        }
    } else if !bold && italic {
        match faces.italic {
            Some(f) => f,
            None => faces.normal,
        }
    } else {
        match faces.bold_italic {
            Some(f) => f,
            None => match faces.bold {
                Some(f) => f,
                None => match faces.italic {
                    Some(f) => f,
                    None => faces.normal,
                },
            },
        }
    }
}

impl WgpuCrossfontFontFaces {
    /// Faces that use `normal_family` for every style, with no fallbacks and
    /// the default bold weight.
    pub fn new(normal_family: String) -> (faces: Self)
        ensures
            faces.normal.family == normal_family,
            faces.normal.style is None,
            faces.bold is None,
            faces.italic is None,
            faces.bold_italic is None,
            faces.fallbacks@.len() == 0,
            faces.bold_weight == WgpuTerminalFontWeight::Semibold,
    {
        WgpuCrossfontFontFaces {
            normal: WgpuCrossfontFontFace { family: normal_family, style: None },
            bold: None,
            italic: None,
            bold_italic: None,
            fallbacks: Vec::new(),
            bold_weight: WgpuTerminalFontWeight::default_bold(),
        }
    }

    pub fn face_for_style(&self, bold: bool, italic: bool) -> (face: &WgpuCrossfontFontFace)
        ensures
            *face == face_for_style_spec(*self, bold, italic),
    {
        if !bold && !italic {
            &self.normal
        } else if bold && !italic {
            match &self.bold {
                Some(f) => f,
                None => &self.normal,
            }
        } else if !bold && italic {
            match &self.italic {
                Some(f) => f,
                None => &self.normal,
            }
        } else {
            match &self.bold_italic {
                Some(f) => f,
                None => match &self.bold {
                    Some(f) => f,
                    None => match &self.italic {
                        Some(f) => f,
                        None => &self.normal,
                    },
                },
            }
        }
    }
}

/// Characters of the dedicated emoji planes, U+1F000 to U+1FAFF, which are drawn
/// from a color font.
pub open spec fn is_emoji_presentation(c: char) -> bool {
    0x1F000 <= (c as int) <= 0x1FAFF
}

pub fn is_emoji_presentation_candidate(c: char) -> (r: bool)
    ensures
        r == is_emoji_presentation(c),
{
    0x1F000 <= (c as u32) && (c as u32) <= 0x1FAFF
}

/// Which loaded font draws a character: the primary face for its style,
/// the fallback family at an index, or the color emoji font.
#[derive(Debug, Clone, Copy, PartialEq, Eq, Structural)]
pub enum GlyphFontChoice {
    Primary,
    Fallback(usize),
    Emoji,
}

/// The first fallback family that covers the character, by whether each
/// one covers it.
pub open spec fn first_covering(covers: Seq<bool>) -> Option<int> {
    if exists|i: int| 0 <= i < covers.len() && #[trigger] covers[i] {
        Some(choose|i: int| 0 <= i < covers.len() && covers[i] && forall|j: int| 0 <= j < i ==> !#[trigger] covers[j])
    } else {
        None
    }
}

/// The first fallback family that covers a character.
pub fn first_covering_fallback(fallback_covers: &[bool]) -> (index: Option<usize>)
    ensures
        match index {
            Some(i) => i < fallback_covers@.len() && fallback_covers@[i as int] && forall|j: int|
                0 <= j < i ==> !#[trigger] fallback_covers@[j],
            None => forall|j: int| 0 <= j < fallback_covers@.len() ==> !#[trigger] fallback_covers@[j],
        },
        index matches Some(i) ==> first_covering(fallback_covers@) == Some(i as int),
        index is None ==> first_covering(fallback_covers@) is None,
{
    let mut i: usize = 0;
    while i < fallback_covers.len()
        invariant
            i <= fallback_covers@.len(),
            forall|j: int| 0 <= j < i ==> !#[trigger] fallback_covers@[j],
        decreases fallback_covers@.len() - i,
    {
        if fallback_covers[i] {
            proof {
                let covers = fallback_covers@;
                assert(covers[i as int]);
                let k = choose|k: int| 0 <= k < covers.len() && covers[k] && forall|j: int| 0 <= j < k ==> !#[trigger] covers[j];
                if k < i {
                    assert(!covers[k]);
                } else if k > i {
                    assert(!covers[i as int]);
                }
            }
            return Some(i);
        }
        i = i + 1;
    }
    None
}

/// The font for a character: an emoji-plane character takes the first
/// fallback that covers it, else the emoji font, else the primary face;
/// another character takes the primary face when that covers it or its
/// coverage is unknown, else the first fallback that covers it, else the
/// primary face all the same.
pub open spec fn font_choice(
    character: char,
    primary_covers: Option<bool>,
    fallback_covers: Seq<bool>,
    has_emoji_font: bool,
) -> GlyphFontChoice {
    let fallback = match first_covering(fallback_covers) {
        Some(i) => Some(GlyphFontChoice::Fallback(i as usize)),
        None => None,
    };
    if is_emoji_presentation(character) {
        match fallback {
            Some(choice) => choice,
            None => if has_emoji_font {
                GlyphFontChoice::Emoji
            } else {
                GlyphFontChoice::Primary
            },
        }
    } else if primary_covers != Some(false) {
        GlyphFontChoice::Primary
    } else {
        match fallback {
            Some(choice) => choice,
            None => GlyphFontChoice::Primary,
        }
    }
}

/// Picks the font that draws a character, from whether the primary face
/// covers it (none when its coverage could not be read), whether each
/// fallback family covers it, and whether a color emoji font was loaded.
pub fn font_choice_for_glyph(
    character: char,
    primary_covers: Option<bool>,
    fallback_covers: &[bool],
    has_emoji_font: bool,
) -> (choice: GlyphFontChoice)
    ensures
        choice == font_choice(character, primary_covers, fallback_covers@, has_emoji_font),
{
    if is_emoji_presentation_candidate(character) {
        return match first_covering_fallback(fallback_covers) {
            Some(i) => GlyphFontChoice::Fallback(i),
            None => if has_emoji_font {
                GlyphFontChoice::Emoji
            } else {
                GlyphFontChoice::Primary
            },
        };
    }
    let primary_has_glyph = match primary_covers {
        Some(covers) => covers,
        None => true,
    };
    if primary_has_glyph {
        return GlyphFontChoice::Primary;
    }
    match first_covering_fallback(fallback_covers) {
        Some(i) => GlyphFontChoice::Fallback(i),
        None => GlyphFontChoice::Primary,
    }
}

/// A text cluster drawn as emoji: one with a variation selector 16, a zero
/// width joiner, or an emoji-plane character.
pub open spec fn is_emoji_cluster(text: Seq<char>) -> bool {
    exists|i: int|
        0 <= i < text.len() && (text[i] == '\u{fe0f}' || text[i] == '\u{200d}'
            || is_emoji_presentation(#[trigger] text[i]))
}

pub fn is_emoji_text_cluster(text: &str) -> (r: bool)
    ensures
        r == is_emoji_cluster(text@),
{
    let n = text.unicode_len();
    let mut i: usize = 0;
    while i < n
        invariant
            n == text@.len(),
            i <= n,
            forall|j: int|
                0 <= j < i ==> !(text@[j] == '\u{fe0f}' || text@[j] == '\u{200d}'
                    || is_emoji_presentation(#[trigger] text@[j])),
        decreases n - i,
    {
        let c = text.get_char(i);
        if c == '\u{fe0f}' || c == '\u{200d}' || is_emoji_presentation_candidate(c) {
            return true;
        }
        i = i + 1;
    }
    false
}

/// The source-over blend of `source` on `destination` with straight alpha and
/// integer channels, as the cluster rasterizer composes glyph layers: the
/// output alpha is `sa + da * (255 - sa) / 255`; each color channel is
/// `(s * sa + d * da * (255 - sa) / 255) / out_alpha` kept to its low eight
/// bits; a fully transparent result leaves the destination as it was.
pub open spec fn blended_alpha(source_alpha: int, destination_alpha: int) -> int {
    source_alpha + destination_alpha * (255 - source_alpha) / 255
}

pub open spec fn blended_channel(
    source_value: int,
    source_alpha: int,
    destination_value: int,
    destination_alpha: int,
) -> u8 {
    ((source_value * source_alpha + destination_value * destination_alpha * (255 - source_alpha)
        / 255) / blended_alpha(source_alpha, destination_alpha)) as u8
}

pub fn alpha_blend_pixel(destination: &mut [u8], source: [u8; 4])
    requires
        old(destination)@.len() >= 4,
        forall|c: int|
            0 <= c < 3 ==> #[trigger] old(destination)@[c] as int * old(destination)@[3] as int * (255
                - source@[3] as int) <= u16::MAX,
        forall|c: int|
            0 <= c < 3 ==> source@[c] as int * source@[3] as int + #[trigger] old(destination)@[c] as int
                * old(destination)@[3] as int * (255 - source@[3] as int) / 255 <= u16::MAX,
    ensures
        final(destination)@.len() == old(destination)@.len(),
        blended_alpha(source@[3] as int, old(destination)@[3] as int) == 0 ==> final(destination)@
            == old(destination)@,
        blended_alpha(source@[3] as int, old(destination)@[3] as int) != 0 ==> {
            &&& forall|c: int|
                0 <= c < 3 ==> #[trigger] final(destination)@[c] == blended_channel(
                    source@[c] as int,
                    source@[3] as int,
                    old(destination)@[c] as int,
                    old(destination)@[3] as int,
                )
            &&& final(destination)@[3] == blended_alpha(
                source@[3] as int,
                old(destination)@[3] as int,
            ) as u8
            &&& forall|i: int| 4 <= i < old(destination)@.len() ==> final(destination)@[i] == old(
                destination,
            )@[i]
        },
{
    let source_alpha: u16 = source[3] as u16;
    let destination_alpha: u16 = destination[3] as u16;
    let inverse_source_alpha: u16 = 255 - source_alpha;
    assert(destination_alpha * inverse_source_alpha <= 255 * 255) by (nonlinear_arith)
        requires
            destination_alpha <= 255,
            inverse_source_alpha <= 255,
    ;
    let output_alpha: u16 = source_alpha + destination_alpha * inverse_source_alpha / 255;
    if output_alpha == 0 {
        return;
    }
    let ghost start = destination@;
    let mut channel: usize = 0;
    while channel < 3
        invariant
            0 <= channel <= 3,
            destination@.len() == start.len(),
            start.len() >= 4,
            destination@[3] == start[3],
            source_alpha == source@[3],
            destination_alpha == start[3],
            inverse_source_alpha == 255 - source_alpha,
            output_alpha == blended_alpha(source_alpha as int, destination_alpha as int),
            output_alpha > 0,
            forall|c: int|
                0 <= c < 3 ==> #[trigger] start[c] as int * start[3] as int * (255 - source@[3] as int)
                    <= u16::MAX,
            forall|c: int|
                0 <= c < 3 ==> source@[c] as int * source@[3] as int + #[trigger] start[c] as int
                    * start[3] as int * (255 - source@[3] as int) / 255 <= u16::MAX,
            forall|c: int|
                0 <= c < channel ==> #[trigger] destination@[c] == blended_channel(
                    source@[c] as int,
                    source@[3] as int,
                    start[c] as int,
                    start[3] as int,
                ),
            forall|c: int| channel <= c < 3 ==> destination@[c] == start[c],
            forall|i: int| 4 <= i < start.len() ==> destination@[i] == start[i],
        decreases 3 - channel,
    {
        let d: u16 = destination[channel] as u16;
        let s: u16 = source[channel] as u16;
        assert(start[channel as int] as int * start[3] as int * (255 - source@[3] as int) <= u16::MAX);
        assert(s * source_alpha <= 255 * 255) by (nonlinear_arith)
            requires
                s <= 255,
                source_alpha <= 255,
        ;
        let source_value: u16 = s * source_alpha;
        assert(d == start[channel as int]);
        assert(d * destination_alpha <= 255 * 255) by (nonlinear_arith)
            requires
                d <= 255,
                destination_alpha <= 255,
        ;
        assert(d * destination_alpha * inverse_source_alpha <= u16::MAX);
        let destination_value: u16 = d * destination_alpha * inverse_source_alpha / 255;
        let v: u16 = (source_value + destination_value) / output_alpha;
        destination[channel] = v as u8;
        channel = channel + 1;
    }
    destination[3] = output_alpha as u8;
}

} // verus!
