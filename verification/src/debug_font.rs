use vstd::prelude::*;

verus! {

/// `c` with the ASCII lower-case letters mapped to upper case, as
/// `char::to_ascii_uppercase` does.
pub open spec fn ascii_upper(c: char) -> char {
    if 'a' <= c && c <= 'z' {
        ((c as u32) - 32) as char
    } else {
        c
    }
}

fn to_ascii_uppercase(c: char) -> (r: char)
    ensures
        r == ascii_upper(c),
{
    if 'a' <= c && c <= 'z' {
        let code: u32 = (c as u32) - 32;
        code as u8 as char
    } else {
        c
    }
}

/// The seven 5-bit rows (most significant bit on the left) of the built-in
/// debug font, for an already upper-cased character; any character the font
/// does not have gets a crossed box.
pub open spec fn debug_rows_upper(c: char) -> Seq<u8> {
    match c {
        'A' => seq![0b01110, 0b10001, 0b10001, 0b11111, 0b10001, 0b10001, 0b10001],
        'B' => seq![0b11110, 0b10001, 0b10001, 0b11110, 0b10001, 0b10001, 0b11110],
        'C' => seq![0b01111, 0b10000, 0b10000, 0b10000, 0b10000, 0b10000, 0b01111],
        'D' => seq![0b11110, 0b10001, 0b10001, 0b10001, 0b10001, 0b10001, 0b11110],
        'E' => seq![0b11111, 0b10000, 0b10000, 0b11110, 0b10000, 0b10000, 0b11111],
        'F' => seq![0b11111, 0b10000, 0b10000, 0b11110, 0b10000, 0b10000, 0b10000],
        'G' => seq![0b01111, 0b10000, 0b10000, 0b10111, 0b10001, 0b10001, 0b01111],
        'H' => seq![0b10001, 0b10001, 0b10001, 0b11111, 0b10001, 0b10001, 0b10001],
        'I' => seq![0b11111, 0b00100, 0b00100, 0b00100, 0b00100, 0b00100, 0b11111],
        'J' => seq![0b00111, 0b00010, 0b00010, 0b00010, 0b10010, 0b10010, 0b01100],
        'K' => seq![0b10001, 0b10010, 0b10100, 0b11000, 0b10100, 0b10010, 0b10001],
        'L' => seq![0b10000, 0b10000, 0b10000, 0b10000, 0b10000, 0b10000, 0b11111],
        'M' => seq![0b10001, 0b11011, 0b10101, 0b10101, 0b10001, 0b10001, 0b10001],
        'N' => seq![0b10001, 0b11001, 0b10101, 0b10011, 0b10001, 0b10001, 0b10001],
        'O' => seq![0b01110, 0b10001, 0b10001, 0b10001, 0b10001, 0b10001, 0b01110],
        'P' => seq![0b11110, 0b10001, 0b10001, 0b11110, 0b10000, 0b10000, 0b10000],
        'Q' => seq![0b01110, 0b10001, 0b10001, 0b10001, 0b10101, 0b10010, 0b01101],
        'R' => seq![0b11110, 0b10001, 0b10001, 0b11110, 0b10100, 0b10010, 0b10001],
        'S' => seq![0b01111, 0b10000, 0b10000, 0b01110, 0b00001, 0b00001, 0b11110],
        'T' => seq![0b11111, 0b00100, 0b00100, 0b00100, 0b00100, 0b00100, 0b00100],
        'U' => seq![0b10001, 0b10001, 0b10001, 0b10001, 0b10001, 0b10001, 0b01110],
        'V' => seq![0b10001, 0b10001, 0b10001, 0b10001, 0b10001, 0b01010, 0b00100],
        'W' => seq![0b10001, 0b10001, 0b10001, 0b10101, 0b10101, 0b10101, 0b01010],
        'X' => seq![0b10001, 0b10001, 0b01010, 0b00100, 0b01010, 0b10001, 0b10001],
        'Y' => seq![0b10001, 0b10001, 0b01010, 0b00100, 0b00100, 0b00100, 0b00100],
        'Z' => seq![0b11111, 0b00001, 0b00010, 0b00100, 0b01000, 0b10000, 0b11111],
        '0' => seq![0b01110, 0b10001, 0b10011, 0b10101, 0b11001, 0b10001, 0b01110],
        '1' => seq![0b00100, 0b01100, 0b00100, 0b00100, 0b00100, 0b00100, 0b01110],
        '2' => seq![0b01110, 0b10001, 0b00001, 0b00010, 0b00100, 0b01000, 0b11111],
        '3' => seq![0b11110, 0b00001, 0b00001, 0b01110, 0b00001, 0b00001, 0b11110],
        '4' => seq![0b00010, 0b00110, 0b01010, 0b10010, 0b11111, 0b00010, 0b00010],
        '5' => seq![0b11111, 0b10000, 0b10000, 0b11110, 0b00001, 0b00001, 0b11110],
        '6' => seq![0b01110, 0b10000, 0b10000, 0b11110, 0b10001, 0b10001, 0b01110],
        '7' => seq![0b11111, 0b00001, 0b00010, 0b00100, 0b01000, 0b01000, 0b01000],
        '8' => seq![0b01110, 0b10001, 0b10001, 0b01110, 0b10001, 0b10001, 0b01110],
        '9' => seq![0b01110, 0b10001, 0b10001, 0b01111, 0b00001, 0b00001, 0b01110],
        ' ' => seq![0, 0, 0, 0, 0, 0, 0],
        '-' => seq![0, 0, 0, 0b11111, 0, 0, 0],
        '_' => seq![0, 0, 0, 0, 0, 0, 0b11111],
        '.' => seq![0, 0, 0, 0, 0, 0b01100, 0b01100],
        ':' => seq![0, 0b01100, 0b01100, 0, 0b01100, 0b01100, 0],
        '/' => seq![0b00001, 0b00010, 0b00010, 0b00100, 0b01000, 0b01000, 0b10000],
        _ => seq![0b11111, 0b10001, 0b00101, 0b00010, 0b00101, 0b10001, 0b11111],
    }
}

/// The rows of the debug glyph of `c`; lower-case letters share the rows of
/// their upper-case letter.
pub open spec fn debug_rows(c: char) -> Seq<u8> {
    debug_rows_upper(ascii_upper(c))
}

/// A lower-case ASCII letter is drawn with the rows of the upper-case letter
/// 32 code points below it, which the font has: never the crossed box it
/// draws for characters it lacks.
pub proof fn law_lowercase_letters_use_uppercase_rows(c: char)
    requires
        'a' <= c <= 'z',
    ensures
        'A' <= ((c as u32) - 32) as char <= 'Z',
        debug_rows(c) == debug_rows(((c as u32) - 32) as char),
        debug_rows(c) != seq![0b11111u8, 0b10001u8, 0b00101u8, 0b00010u8, 0b00101u8, 0b10001u8, 0b11111u8],
{
    let u = ((c as u32) - 32) as char;
    let unknown = seq![0b11111u8, 0b10001u8, 0b00101u8, 0b00010u8, 0b00101u8, 0b10001u8, 0b11111u8];
    assert('A' <= u <= 'Z');
    assert(debug_rows_upper(u) != unknown) by {
        assert(unknown[0] == 0b11111u8 && unknown[1] == 0b10001u8 && unknown[2] == 0b00101u8);
        if u == 'A' { assert(debug_rows_upper(u)[0] != unknown[0]); }
        else if u == 'B' { assert(debug_rows_upper(u)[0] != unknown[0]); }
        else if u == 'C' { assert(debug_rows_upper(u)[0] != unknown[0]); }
        else if u == 'D' { assert(debug_rows_upper(u)[0] != unknown[0]); }
        else if u == 'E' { assert(debug_rows_upper(u)[1] != unknown[1]); }
        else if u == 'F' { assert(debug_rows_upper(u)[1] != unknown[1]); }
        else if u == 'G' { assert(debug_rows_upper(u)[0] != unknown[0]); }
        else if u == 'H' { assert(debug_rows_upper(u)[0] != unknown[0]); }
        else if u == 'I' { assert(debug_rows_upper(u)[1] != unknown[1]); }
        else if u == 'J' { assert(debug_rows_upper(u)[0] != unknown[0]); }
        else if u == 'K' { assert(debug_rows_upper(u)[0] != unknown[0]); }
        else if u == 'L' { assert(debug_rows_upper(u)[0] != unknown[0]); }
        else if u == 'M' { assert(debug_rows_upper(u)[0] != unknown[0]); }
        else if u == 'N' { assert(debug_rows_upper(u)[0] != unknown[0]); }
        else if u == 'O' { assert(debug_rows_upper(u)[0] != unknown[0]); }
        else if u == 'P' { assert(debug_rows_upper(u)[0] != unknown[0]); }
        else if u == 'Q' { assert(debug_rows_upper(u)[0] != unknown[0]); }
        else if u == 'R' { assert(debug_rows_upper(u)[0] != unknown[0]); }
        else if u == 'S' { assert(debug_rows_upper(u)[0] != unknown[0]); }
        else if u == 'T' { assert(debug_rows_upper(u)[1] != unknown[1]); }
        else if u == 'U' { assert(debug_rows_upper(u)[0] != unknown[0]); }
        else if u == 'V' { assert(debug_rows_upper(u)[0] != unknown[0]); }
        else if u == 'W' { assert(debug_rows_upper(u)[0] != unknown[0]); }
        else if u == 'X' { assert(debug_rows_upper(u)[0] != unknown[0]); }
        else if u == 'Y' { assert(debug_rows_upper(u)[0] != unknown[0]); }
        else {
            assert(u == 'Z');
            assert(debug_rows_upper(u)[2] != unknown[2]);
        }
    }
}

/// The debug 5x7 bitmap of `c`, one byte per row with the leftmost pixel in
/// bit 4.
pub fn debug_5x7_bitmap(c: char) -> (rows: [u8; 7])
    ensures
        rows@ == debug_rows(c),
        forall|i: int| 0 <= i < 7 ==> rows@[i] < 32,
{
    let r = match to_ascii_uppercase(c) {
        'A' => [0b01110, 0b10001, 0b10001, 0b11111, 0b10001, 0b10001, 0b10001],
        'B' => [0b11110, 0b10001, 0b10001, 0b11110, 0b10001, 0b10001, 0b11110],
        'C' => [0b01111, 0b10000, 0b10000, 0b10000, 0b10000, 0b10000, 0b01111],
        'D' => [0b11110, 0b10001, 0b10001, 0b10001, 0b10001, 0b10001, 0b11110],
        'E' => [0b11111, 0b10000, 0b10000, 0b11110, 0b10000, 0b10000, 0b11111],
        'F' => [0b11111, 0b10000, 0b10000, 0b11110, 0b10000, 0b10000, 0b10000],
        'G' => [0b01111, 0b10000, 0b10000, 0b10111, 0b10001, 0b10001, 0b01111],
        'H' => [0b10001, 0b10001, 0b10001, 0b11111, 0b10001, 0b10001, 0b10001],
        'I' => [0b11111, 0b00100, 0b00100, 0b00100, 0b00100, 0b00100, 0b11111],
        'J' => [0b00111, 0b00010, 0b00010, 0b00010, 0b10010, 0b10010, 0b01100],
        'K' => [0b10001, 0b10010, 0b10100, 0b11000, 0b10100, 0b10010, 0b10001],
        'L' => [0b10000, 0b10000, 0b10000, 0b10000, 0b10000, 0b10000, 0b11111],
        'M' => [0b10001, 0b11011, 0b10101, 0b10101, 0b10001, 0b10001, 0b10001],
        'N' => [0b10001, 0b11001, 0b10101, 0b10011, 0b10001, 0b10001, 0b10001],
        'O' => [0b01110, 0b10001, 0b10001, 0b10001, 0b10001, 0b10001, 0b01110],
        'P' => [0b11110, 0b10001, 0b10001, 0b11110, 0b10000, 0b10000, 0b10000],
        'Q' => [0b01110, 0b10001, 0b10001, 0b10001, 0b10101, 0b10010, 0b01101],
        'R' => [0b11110, 0b10001, 0b10001, 0b11110, 0b10100, 0b10010, 0b10001],
        'S' => [0b01111, 0b10000, 0b10000, 0b01110, 0b00001, 0b00001, 0b11110],
        'T' => [0b11111, 0b00100, 0b00100, 0b00100, 0b00100, 0b00100, 0b00100],
        'U' => [0b10001, 0b10001, 0b10001, 0b10001, 0b10001, 0b10001, 0b01110],
        'V' => [0b10001, 0b10001, 0b10001, 0b10001, 0b10001, 0b01010, 0b00100],
        'W' => [0b10001, 0b10001, 0b10001, 0b10101, 0b10101, 0b10101, 0b01010],
        'X' => [0b10001, 0b10001, 0b01010, 0b00100, 0b01010, 0b10001, 0b10001],
        'Y' => [0b10001, 0b10001, 0b01010, 0b00100, 0b00100, 0b00100, 0b00100],
        'Z' => [0b11111, 0b00001, 0b00010, 0b00100, 0b01000, 0b10000, 0b11111],
        '0' => [0b01110, 0b10001, 0b10011, 0b10101, 0b11001, 0b10001, 0b01110],
        '1' => [0b00100, 0b01100, 0b00100, 0b00100, 0b00100, 0b00100, 0b01110],
        '2' => [0b01110, 0b10001, 0b00001, 0b00010, 0b00100, 0b01000, 0b11111],
        '3' => [0b11110, 0b00001, 0b00001, 0b01110, 0b00001, 0b00001, 0b11110],
        '4' => [0b00010, 0b00110, 0b01010, 0b10010, 0b11111, 0b00010, 0b00010],
        '5' => [0b11111, 0b10000, 0b10000, 0b11110, 0b00001, 0b00001, 0b11110],
        '6' => [0b01110, 0b10000, 0b10000, 0b11110, 0b10001, 0b10001, 0b01110],
        '7' => [0b11111, 0b00001, 0b00010, 0b00100, 0b01000, 0b01000, 0b01000],
        '8' => [0b01110, 0b10001, 0b10001, 0b01110, 0b10001, 0b10001, 0b01110],
        '9' => [0b01110, 0b10001, 0b10001, 0b01111, 0b00001, 0b00001, 0b01110],
        ' ' => [0, 0, 0, 0, 0, 0, 0],
        '-' => [0, 0, 0, 0b11111, 0, 0, 0],
        '_' => [0, 0, 0, 0, 0, 0, 0b11111],
        '.' => [0, 0, 0, 0, 0, 0b01100, 0b01100],
        ':' => [0, 0b01100, 0b01100, 0, 0b01100, 0b01100, 0],
        '/' => [0b00001, 0b00010, 0b00010, 0b00100, 0b01000, 0b01000, 0b10000],
        _ => [0b11111, 0b10001, 0b00101, 0b00010, 0b00101, 0b10001, 0b11111],
    };
    assert(r@ =~= debug_rows(c));
    r
}

} // verus!
