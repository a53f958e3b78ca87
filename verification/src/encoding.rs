//! Encoding characters and strings as display bitmaps via the glyph table.

use crate::mappings::blank_display;
use crate::mappings::glyph_spec;
use crate::mappings::supported_char;
use crate::mappings::SingleDisplayData;
use vstd::prelude::*;
use vstd::string::StrSliceExecFns;

verus! {

/// The bitmaps of a whole text, one per character, in text order.
pub open spec fn encode_spec(s: Seq<char>) -> Seq<SingleDisplayData> {
    Seq::new(s.len(), |i: int| glyph_spec(s[i]))
}

/// Encodes one character as its 8x8 bitmap.  Lowercase letters fold to
/// their capital's glyph; a character without a glyph of its own (the
/// space among them) gives the blank bitmap.  Never fails.
pub fn encode_char(c: char) -> (bitmap: SingleDisplayData)
    ensures
        bitmap == glyph_spec(c),
{
    match c {
        'A' | 'a' => [0b00111000u8, 0b01000100, 0b01000100, 0b01000100, 0b01111100, 0b01000100, 0b01000100, 0b01000100],
        'B' | 'b' => [0b01111000u8, 0b01000100, 0b01000100, 0b01111000, 0b01000100, 0b01000100, 0b01000100, 0b01111000],
        'C' | 'c' => [0b01111100u8, 0b01000000, 0b01000000, 0b01000000, 0b01000000, 0b01000000, 0b01000000, 0b01111100],
        'D' | 'd' => [0b01111000u8, 0b01000100, 0b01000100, 0b01000100, 0b01000100, 0b01000100, 0b01000100, 0b01111000],
        'E' | 'e' => [0b01111100u8, 0b01000000, 0b01000000, 0b01111100, 0b01000000, 0b01000000, 0b01000000, 0b01111100],
        'F' | 'f' => [0b01111100u8, 0b01000000, 0b01000000, 0b01111100, 0b01000000, 0b01000000, 0b01000000, 0b01000000],
        'G' | 'g' => [0b01111000u8, 0b11000100, 0b10000100, 0b10000000, 0b10011100, 0b10000100, 0b11000100, 0b01111100],
        'H' | 'h' => [0b01000100u8, 0b01000100, 0b01000100, 0b01111100, 0b01000100, 0b01000100, 0b01000100, 0b01000100],
        'I' | 'i' => [0b00010000u8, 0b00010000, 0b00010000, 0b00010000, 0b00010000, 0b00010000, 0b00010000, 0b00010000],
        'K' | 'k' => [0b01000100u8, 0b01001000, 0b01010000, 0b01100000, 0b01010000, 0b01001000, 0b01000100, 0b01000010],
        'L' | 'l' => [0b01000000u8, 0b01000000, 0b01000000, 0b01000000, 0b01000000, 0b01000000, 0b01000000, 0b01111100],
        'M' | 'm' => [0b10000010u8, 0b11000110, 0b10101010, 0b10111010, 0b10010010, 0b10000010, 0b10000010, 0b10000010],
        'N' | 'n' => [0b01000100u8, 0b01100100, 0b01110100, 0b01010100, 0b01011100, 0b01001100, 0b01001100, 0b01000100],
        'O' | 'o' => [0b00011000u8, 0b00100100, 0b01000010, 0b01000010, 0b01000010, 0b01000010, 0b00100100, 0b00011000],
        'P' | 'p' => [0b01111000u8, 0b01000100, 0b01000100, 0b01000100, 0b01111000, 0b01000000, 0b01000000, 0b01000000],
        'R' | 'r' => [0b01111000u8, 0b01000100, 0b01000100, 0b01111000, 0b01100000, 0b01010000, 0b01001000, 0b01000100],
        'S' | 's' => [0b00011100u8, 0b00100000, 0b01000000, 0b00110000, 0b00001000, 0b00000100, 0b00000100, 0b01111000],
        'T' | 't' => [0b11111110u8, 0b00010000, 0b00010000, 0b00010000, 0b00010000, 0b00010000, 0b00010000, 0b00010000],
        'U' | 'u' => [0b01000010u8, 0b01000010, 0b01000010, 0b01000010, 0b01000010, 0b01000010, 0b01000010, 0b00111100],
        'Z' | 'z' => [0b01111110u8, 0b00000010, 0b00000100, 0b00001000, 0b00010000, 0b00100000, 0b01000000, 0b01111110],
        '0' => [0b00111000u8, 0b01000100, 0b01000100, 0b01000100, 0b01000100, 0b01000100, 0b01000100, 0b00111000],
        '1' => [0b00000100u8, 0b00011100, 0b00000100, 0b00000100, 0b00000100, 0b00000100, 0b00000100, 0b00000100],
        '.' => [0u8, 0, 0, 0, 0, 0, 0, 0b00010000],
        '!' => [0b00010000u8, 0b00010000, 0b00010000, 0b00010000, 0b00010000, 0b00010000, 0, 0b00010000],
        _ => [0u8, 0, 0, 0, 0, 0, 0, 0],
    }
}

/// Encodes each character of a string as its bitmap.  The resulting
/// sequence has one bitmap per character of the input, in order; it is
/// as long as the text, not as long as the physically wired chain.
pub fn encode_string(s: &str) -> (bitmaps: Vec<SingleDisplayData>)
    ensures
        bitmaps@ == encode_spec(s@),
{
    let len = s.unicode_len();
    let mut bitmaps: Vec<SingleDisplayData> = Vec::new();
    let mut i: usize = 0;
    while i < len
        invariant
            len == s@.len(),
            i <= len,
            bitmaps@.len() == i,
            forall|j: int| 0 <= j < i ==> bitmaps@[j] == glyph_spec(s@[j]),
        decreases len - i,
    {
        bitmaps.push(encode_char(s.get_char(i)));
        i = i + 1;
    }
    proof {
        assert(bitmaps@ =~= encode_spec(s@));
    }
    bitmaps
}

/// A character outside the supported alphabet always renders blank: the
/// glyph lookup degrades, it never fails.
pub proof fn lemma_unsupported_char_is_blank(c: char)
    requires
        !supported_char(c),
    ensures
        glyph_spec(c) == blank_display(),
{
}

} // verus!
