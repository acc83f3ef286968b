use vstd::prelude::*;

verus! {

/// An RGB color with 8-bit channels.
#[derive(Debug, Clone, Copy, PartialEq, Eq, Structural, Hash)]
pub struct RgbColorDto {
    pub red: u8,
    pub green: u8,
    pub blue: u8,
}

impl RgbColorDto {
    pub fn new(red: u8, green: u8, blue: u8) -> (color: Self)
        ensures
            color == (RgbColorDto { red, green, blue }),
    {
        RgbColorDto { red, green, blue }
    }
}

/// The colors of a terminal theme that the renderer draws with: the 16 ANSI
/// colors, the cursor and the text under it, and the colors of the tab bar
/// and of its tabs.
#[derive(Debug, Clone, Copy, PartialEq, Eq)]
pub struct TerminalColorTheme {
    pub palette: [RgbColorDto; 16],
    pub cursor: RgbColorDto,
    pub cursor_text: RgbColorDto,
    pub tab_bar_background: RgbColorDto,
    pub active_tab_foreground: RgbColorDto,
    pub active_tab_background: RgbColorDto,
    pub inactive_tab_foreground: RgbColorDto,
    pub inactive_tab_background: RgbColorDto,
}

/// Text style of a run of terminal text.
#[derive(Debug, Clone, Copy, PartialEq, Eq, Structural, Hash)]
pub struct TextStyleDto {
    pub foreground: Option<RgbColorDto>,
    pub background: Option<RgbColorDto>,
    pub bold: bool,
    pub italic: bool,
    pub underline: bool,
}

impl TextStyleDto {
    /// No colors and no attributes.
    pub fn plain() -> (style: Self)
        ensures
            style == (TextStyleDto {
                foreground: None,
                background: None,
                bold: false,
                italic: false,
                underline: false,
            }),
    {
        TextStyleDto { foreground: None, background: None, bold: false, italic: false, underline: false }
    }
}

/// The perceived brightness of a color, times 1000.
pub open spec fn luminance(color: RgbColorDto) -> int {
    color.red as int * 299 + color.green as int * 587 + color.blue as int * 114
}

/// White on dark colors, black on light ones.
pub open spec fn contrasting(color: RgbColorDto) -> RgbColorDto {
    if luminance(color) < 140_000 {
        RgbColorDto { red: 255, green: 255, blue: 255 }
    } else {
        RgbColorDto { red: 0, green: 0, blue: 0 }
    }
}

pub fn contrasting_color(color: RgbColorDto) -> (contrast: RgbColorDto)
    ensures
        contrast == contrasting(color),
{
    let luminance: u32 = (color.red as u32) * 299 + (color.green as u32) * 587 + (color.blue as u32) * 114;
    if luminance < 140_000 {
        RgbColorDto::new(255, 255, 255)
    } else {
        RgbColorDto::new(0, 0, 0)
    }
}

/// One channel `amount / total` of the way from `from` to `to`, rounded down
/// and kept to its low eight bits.
pub open spec fn mixed_channel(from: u8, to: u8, amount: u16, total: u16) -> u8 {
    let inverse = if total >= amount {
        total - amount
    } else {
        0
    };
    let divisor = if total >= 1 {
        total as int
    } else {
        1
    };
    ((from as int * inverse + to as int * amount as int) / divisor) as u8
}

fn mix_channel(from: u8, to: u8, amount: u16, total: u16) -> (r: u8)
    ensures
        r == mixed_channel(from, to, amount, total),
{
    let inverse: u32 = total.saturating_sub(amount) as u32;
    assert((from as u32) * inverse <= 255 * 65535) by (nonlinear_arith)
        requires
            from <= 255,
            inverse <= 65535,
    ;
    assert((to as u32) * (amount as u32) <= 255 * 65535) by (nonlinear_arith)
        requires
            to <= 255,
            amount <= 65535,
    ;
    let divisor: u32 = if total >= 1 {
        total as u32
    } else {
        1
    };
    let v: u32 = ((from as u32) * inverse + (to as u32) * (amount as u32)) / divisor;
    v as u8
}

/// The color `amount / total` of the way from `from` to `to`, channel by channel.
pub fn mix_rgb(from: RgbColorDto, to: RgbColorDto, amount: u16, total: u16) -> (mixed: RgbColorDto)
    ensures
        mixed == (RgbColorDto {
            red: mixed_channel(from.red, to.red, amount, total),
            green: mixed_channel(from.green, to.green, amount, total),
            blue: mixed_channel(from.blue, to.blue, amount, total),
        }),
{
    RgbColorDto::new(
        mix_channel(from.red, to.red, amount, total),
        mix_channel(from.green, to.green, amount, total),
        mix_channel(from.blue, to.blue, amount, total),
    )
}

/// The channel value of level `level` (0 to 5) of the 6x6x6 color cube of the
/// 256-color palette: 0, then 95 to 255 in steps of 40.
pub fn ansi_256_cube_component(level: u8) -> (component: u8)
    requires
        level <= 5,
    ensures
        component == if level == 0 {
            0
        } else {
            55 + 40 * level
        },
{
    if level == 0 {
        0
    } else {
        55 + 40 * level
    }
}

} // verus!
