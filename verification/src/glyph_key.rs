use vstd::prelude::*;

verus! {

/// Bit that marks a bold glyph in a packed glyph id.
pub const BOLD_BIT: u32 = 0x0020_0000;

/// Bit that marks an italic glyph in a packed glyph id.
pub const ITALIC_BIT: u32 = 0x0040_0000;

/// Mask of the code point bits of a packed glyph id.
pub const CODEPOINT_MASK: u32 = 0x001f_ffff;

/// Bit that marks a shaped cluster in a packed glyph id.
pub const CLUSTER_BIT: u32 = 0x8000_0000;

/// What a glyph stands for: one character, or a shaped cluster named by a hash.
#[derive(Debug, Clone, Copy, PartialEq, Eq, Structural, PartialOrd, Ord, Hash)]
pub enum WgpuTerminalGlyphIdentity {
    Character(char),
    Cluster(u64),
}

/// Key of one glyph in a glyph atlas.
#[derive(Debug, Clone, Copy, PartialEq, Eq, Structural, PartialOrd, Ord, Hash)]
pub struct WgpuTerminalGlyphKey {
    pub identity: WgpuTerminalGlyphIdentity,
    pub bold: bool,
    pub italic: bool,
}

/// The Unicode scalar values: what `char` can hold.
pub open spec fn is_scalar_value(v: int) -> bool {
    (0 <= v < 0xD800) || (0xE000 <= v <= 0x10FFFF)
}

pub open spec fn flag_value(flag: bool, bit: int) -> int {
    if flag {
        bit
    } else {
        0
    }
}

/// The packed id of a glyph key: a character keeps its code point in the low
/// 21 bits with bold in bit 21 and italic in bit 22; a cluster sets bit 31 and
/// keeps the low 31 bits of its hash.
pub open spec fn packed_id_of(key: WgpuTerminalGlyphKey) -> int {
    match key.identity {
        WgpuTerminalGlyphIdentity::Character(c) => (c as int) + flag_value(key.bold, 0x0020_0000)
            + flag_value(key.italic, 0x0040_0000),
        WgpuTerminalGlyphIdentity::Cluster(id) => 0x8000_0000 + (id as int) % 0x8000_0000,
    }
}

/// The key that a packed id decodes to, if any.
pub open spec fn key_of_packed_id(packed_id: u32) -> Option<WgpuTerminalGlyphKey> {
    let code = packed_id as int % 0x0020_0000;
    if packed_id >= 0x8000_0000 {
        None
    } else if !is_scalar_value(code) {
        None
    } else {
        Some(
            WgpuTerminalGlyphKey {
                identity: WgpuTerminalGlyphIdentity::Character(code as char),
                bold: (packed_id as int / 0x0020_0000) % 2 == 1,
                italic: (packed_id as int / 0x0040_0000) % 2 == 1,
            },
        )
    }
}

/// Calls `char::from_u32`, which returns the character with the given code
/// point when it is a Unicode scalar value, and `None` otherwise.
#[verifier::external_body]
fn char_from_u32(v: u32) -> (r: Option<char>)
    ensures
        is_scalar_value(v as int) ==> r == Some(v as char),
        !is_scalar_value(v as int) ==> r is None,
        r matches Some(c) ==> c as u32 == v,
{
    char::from_u32(v)
}

impl WgpuTerminalGlyphKey {
    pub fn new(c: char, bold: bool) -> (key: Self)
        ensures
            key == (WgpuTerminalGlyphKey {
                identity: WgpuTerminalGlyphIdentity::Character(c),
                bold,
                italic: false,
            }),
    {
        Self::styled(c, bold, false)
    }

    pub fn styled(c: char, bold: bool, italic: bool) -> (key: Self)
        ensures
            key == (WgpuTerminalGlyphKey {
                identity: WgpuTerminalGlyphIdentity::Character(c),
                bold,
                italic,
            }),
    {
        WgpuTerminalGlyphKey { identity: WgpuTerminalGlyphIdentity::Character(c), bold, italic }
    }

    pub fn cluster(id: u64, bold: bool, italic: bool) -> (key: Self)
        ensures
            key == (WgpuTerminalGlyphKey {
                identity: WgpuTerminalGlyphIdentity::Cluster(id),
                bold,
                italic,
            }),
    {
        WgpuTerminalGlyphKey { identity: WgpuTerminalGlyphIdentity::Cluster(id), bold, italic }
    }

    pub fn plain(c: char) -> (key: Self)
        ensures
            key == (WgpuTerminalGlyphKey {
                identity: WgpuTerminalGlyphIdentity::Character(c),
                bold: false,
                italic: false,
            }),
    {
        Self::new(c, false)
    }

    pub fn character(self) -> (r: Option<char>)
        ensures
            r == (match self.identity {
                WgpuTerminalGlyphIdentity::Character(c) => Some(c),
                WgpuTerminalGlyphIdentity::Cluster(_) => None::<char>,
            }),
    {
        match self.identity {
            WgpuTerminalGlyphIdentity::Character(c) => Some(c),
            WgpuTerminalGlyphIdentity::Cluster(_) => None,
        }
    }

    pub fn is_cluster(self) -> (r: bool)
        ensures
            r == (self.identity is Cluster),
    {
        match self.identity {
            WgpuTerminalGlyphIdentity::Character(_) => false,
            WgpuTerminalGlyphIdentity::Cluster(_) => true,
        }
    }

    pub fn bold(self) -> (r: bool)
        ensures
            r == self.bold,
    {
        self.bold
    }

    pub fn italic(self) -> (r: bool)
        ensures
            r == self.italic,
    {
        self.italic
    }

    pub fn packed_id(self) -> (r: u32)
        ensures
            r as int == packed_id_of(self),
    {
        match self.identity {
            WgpuTerminalGlyphIdentity::Character(c) => {
                let code: u32 = c as u32;
                let b: u32 = if self.bold {
                    BOLD_BIT
                } else {
                    0
                };
                let i: u32 = if self.italic {
                    ITALIC_BIT
                } else {
                    0
                };
                let r: u32 = (code & CODEPOINT_MASK) | b | i;
                assert(r == code + b + i) by (bit_vector)
                    requires
                        code <= 0x10FFFF,
                        b == 0 || b == 0x0020_0000u32,
                        i == 0 || i == 0x0040_0000u32,
                        r == (code & 0x001f_ffffu32) | b | i,
                ;
                r
            },
            WgpuTerminalGlyphIdentity::Cluster(id) => {
                let low: u32 = id as u32;
                let r: u32 = CLUSTER_BIT | (low & 0x7fff_ffff);
                assert(low == id % 0x1_0000_0000) by (bit_vector)
                    requires
                        low == id as u32,
                ;
                assert(r == 0x8000_0000u32 + low % 0x8000_0000u32) by (bit_vector)
                    requires
                        r == 0x8000_0000u32 | (low & 0x7fff_ffffu32),
                ;
                assert((id as int % 0x1_0000_0000) % 0x8000_0000 == id as int % 0x8000_0000) by {
                    vstd::arithmetic::div_mod::lemma_mod_mod(id as int, 0x8000_0000, 2);
                }
                r
            },
        }
    }

    pub fn from_packed_id(packed_id: u32) -> (r: Option<Self>)
        ensures
            r == key_of_packed_id(packed_id),
    {
        if packed_id & CLUSTER_BIT != 0 {
            assert(packed_id >= 0x8000_0000) by (bit_vector)
                requires
                    packed_id & 0x8000_0000u32 != 0,
            ;
            return None;
        }
        assert(packed_id < 0x8000_0000) by (bit_vector)
            requires
                packed_id & 0x8000_0000u32 == 0,
        ;
        let code: u32 = packed_id & CODEPOINT_MASK;
        assert(code == packed_id % 0x0020_0000) by (bit_vector)
            requires
                code == packed_id & 0x001f_ffffu32,
        ;
        let c = match char_from_u32(code) {
            Some(c) => c,
            None => {
                return None;
            },
        };
        let bold = (packed_id & BOLD_BIT) != 0;
        let italic = (packed_id & ITALIC_BIT) != 0;
        assert(bold == ((packed_id / 0x0020_0000) % 2 == 1)) by (bit_vector)
            requires
                bold == ((packed_id & 0x0020_0000u32) != 0),
        ;
        assert(italic == ((packed_id / 0x0040_0000) % 2 == 1)) by (bit_vector)
            requires
                italic == ((packed_id & 0x0040_0000u32) != 0),
        ;
        Some(Self::styled(c, bold, italic))
    }
}

/// Decoding the packed id of a character key gives the key back, whatever its
/// style.
pub proof fn lemma_packed_id_round_trip(key: WgpuTerminalGlyphKey)
    requires
        key.identity is Character,
    ensures
        0 <= packed_id_of(key) < 0x8000_0000,
        key_of_packed_id(packed_id_of(key) as u32) == Some(key),
{
    let c = key.identity->Character_0;
    let code: u32 = c as u32;
    let b: u32 = if key.bold {
        0x0020_0000
    } else {
        0
    };
    let i: u32 = if key.italic {
        0x0040_0000
    } else {
        0
    };
    assert(code <= 0x10FFFF);
    let p: u32 = (code + b + i) as u32;
    assert(p < 0x8000_0000 && p % 0x0020_0000 == code && ((p / 0x0020_0000) % 2 == 1) == (b != 0)
        && ((p / 0x0040_0000) % 2 == 1) == (i != 0)) by (bit_vector)
        requires
            code <= 0x10FFFF,
            b == 0 || b == 0x0020_0000u32,
            i == 0 || i == 0x0040_0000u32,
            p == code + b + i,
    ;
    assert(is_scalar_value(code as int));
    assert((code as char) == c);
}

/// Two character keys with different packed ids are different keys, and two
/// character keys are equal exactly when their packed ids are.
pub proof fn lemma_packed_id_injective_on_characters(a: WgpuTerminalGlyphKey, b: WgpuTerminalGlyphKey)
    requires
        a.identity is Character,
        b.identity is Character,
    ensures
        (packed_id_of(a) == packed_id_of(b)) <==> (a == b),
{
    lemma_packed_id_round_trip(a);
    lemma_packed_id_round_trip(b);
}

} // verus!
