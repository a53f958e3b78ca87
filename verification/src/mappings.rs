//! The fixed-size bitmap type shared by the whole pipeline, and the glyph
//! table of the built-in monospaced font: one 8x8 bitmap per supported
//! character.  The font covers the capital letters (a few of them only as
//! an all-zero placeholder), the digits 0 and 1, the dot, the exclamation
//! mark and the space; lowercase letters share their capital's glyph.

use vstd::prelude::*;

verus! {

/// Each single display is an 8x8 square matrix: 8 rows of 8 pixels.
pub const LED_SQUARE_MATRIX_DIM: usize = 8;

/// Maximum number of chained displays the controller chip supports.
pub const MAX_DISPLAYS: usize = 16;

/// One display's content: 8 rows, one byte per row.  Bit 7 (the most
/// significant bit) of a row is the leftmost column, bit 0 the rightmost.
pub type SingleDisplayData = [u8; LED_SQUARE_MATRIX_DIM];

/// The all-zero bitmap: nothing lit.  Unknown characters render as this.
pub open spec fn blank_display() -> SingleDisplayData {
    [0u8, 0, 0, 0, 0, 0, 0, 0]
}

/// Whether the font has an entry of its own for `c`.  Every other
/// character falls back to the blank bitmap.
pub open spec fn supported_char(c: char) -> bool {
    match c {
        'A' | 'a' | 'B' | 'b' | 'C' | 'c' | 'D' | 'd' | 'E' | 'e' | 'F' | 'f' | 'G' | 'g' | 'H'
        | 'h' | 'I' | 'i' | 'J' | 'j' | 'K' | 'k' | 'L' | 'l' | 'M' | 'm' | 'N' | 'n' | 'O' | 'o'
        | 'P' | 'p' | 'Q' | 'q' | 'R' | 'r' | 'S' | 's' | 'T' | 't' | 'U' | 'u' | 'V' | 'v' | 'W'
        | 'w' | 'X' | 'x' | 'Y' | 'y' | 'Z' | 'z' | '0' | '1' | '.' | '!' | ' ' => true,
        _ => false,
    }
}

/// The glyph table: the bitmap that renders `c`.  Lowercase letters fold
/// to their capital; letters the font does not draw yet, the space, and
/// every unsupported character give the blank bitmap.
pub open spec fn glyph_spec(c: char) -> SingleDisplayData {
    match c {
        'A' | 'a' => [0b00111000u8, 0b01000100, 0b01000100, 0b01000100, 0b01111100, 0b01000100, 0b01000100, 0b01000100],
        'B' | 'b' => [0b01111000u8, 0b01000100, 0b01000100, 0b01111000, 0b01000100, 0b01000100, 0b01000100, 0b01111000],
        'C' | 'c' => [0b01111100u8, 0b01000000, 0b01000000, 0b01000000, 0b01000000, 0b01000000, 0b01000000, 0b01111100],
        'D' | 'd' => [0b01111000u8, 0b01000100, 0b01000100, 0b01000100, 0b01000100, 0b01000100, 0b01000100, 0b01111000],
        'E' | 'e' => [0b01111100u8, 0b01000000, 0b01000000, 0b01111100, 0b01000000, 0b01000000, 0b01000000, 0b01111100],
        'F' | 'f' => [0b01111100u8, 0b01000000, 0b01000000, 0b01111100, 0b01000000, 0b01000000, 0b01000000, 0b01000000],
        'G' | 'g' => [0b01111000u8, 0b11000100, 0b10000100, 0b10000000, 0b10011100, 0b10000100, 0b11000100, 0b01111100],
        'H' | 'h' => [0b01000100u8, 0b01000100, 0b01000100, 0b01111100, 0b01000100, 0b01000100, 0b01000100, 0b01000100],
        'I' | 'i' => [0b00010000u8, 0b00010000, 0b00010000, 0b00010000, 0b00010000, 0b00010000, 0b00010000, 0b00010000],
        'K' | 'k' => [0b01000100u8, 0b01001000, 0b01010000, 0b01100000, 0b01010000, 0b01001000, 0b01000100, 0b01000010],
        'L' | 'l' => [0b01000000u8, 0b01000000, 0b01000000, 0b01000000, 0b01000000, 0b01000000, 0b01000000, 0b01111100],
        'M' | 'm' => [0b10000010u8, 0b11000110, 0b10101010, 0b10111010, 0b10010010, 0b10000010, 0b10000010, 0b10000010],
        'N' | 'n' => [0b01000100u8, 0b01100100, 0b01110100, 0b01010100, 0b01011100, 0b01001100, 0b01001100, 0b01000100],
        'O' | 'o' => [0b00011000u8, 0b00100100, 0b01000010, 0b01000010, 0b01000010, 0b01000010, 0b00100100, 0b00011000],
        'P' | 'p' => [0b01111000u8, 0b01000100, 0b01000100, 0b01000100, 0b01111000, 0b01000000, 0b01000000, 0b01000000],
        'R' | 'r' => [0b01111000u8, 0b01000100, 0b01000100, 0b01111000, 0b01100000, 0b01010000, 0b01001000, 0b01000100],
        'S' | 's' => [0b00011100u8, 0b00100000, 0b01000000, 0b00110000, 0b00001000, 0b00000100, 0b00000100, 0b01111000],
        'T' | 't' => [0b11111110u8, 0b00010000, 0b00010000, 0b00010000, 0b00010000, 0b00010000, 0b00010000, 0b00010000],
        'U' | 'u' => [0b01000010u8, 0b01000010, 0b01000010, 0b01000010, 0b01000010, 0b01000010, 0b01000010, 0b00111100],
        'Z' | 'z' => [0b01111110u8, 0b00000010, 0b00000100, 0b00001000, 0b00010000, 0b00100000, 0b01000000, 0b01111110],
        '0' => [0b00111000u8, 0b01000100, 0b01000100, 0b01000100, 0b01000100, 0b01000100, 0b01000100, 0b00111000],
        '1' => [0b00000100u8, 0b00011100, 0b00000100, 0b00000100, 0b00000100, 0b00000100, 0b00000100, 0b00000100],
        '.' => [0u8, 0, 0, 0, 0, 0, 0, 0b00010000],
        '!' => [0b00010000u8, 0b00010000, 0b00010000, 0b00010000, 0b00010000, 0b00010000, 0, 0b00010000],
        _ => [0u8, 0, 0, 0, 0, 0, 0, 0],
    }
}

} // verus!
