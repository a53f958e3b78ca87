//! Bit-level model of a display: columns of a row byte, the column byte of
//! a bit matrix, set-bit counts, and the shifted form of a row.
//!
//! Throughout, column index 0 is the leftmost column, held by bit 7 (the
//! most significant bit) of a row byte; column 7 is the rightmost, bit 0.

use vstd::prelude::*;

verus! {

/// The value (0 or 1) of column `c` of the row byte `b`.
pub open spec fn col_bit(b: u8, c: int) -> u8
    recommends
        0 <= c < 8,
{
    (b >> ((7 - c) as u8)) & 1
}

/// The byte that packs column `c` of each of the 8 rows, row 0 ending up
/// in the most significant bit.  This is row `c` of the transposed matrix.
pub open spec fn col_byte(rows: Seq<u8>, c: int) -> u8
    recommends
        rows.len() == 8,
        0 <= c < 8,
{
    (col_bit(rows[0], c) * 0x80 + col_bit(rows[1], c) * 0x40 + col_bit(rows[2], c) * 0x20
        + col_bit(rows[3], c) * 0x10 + col_bit(rows[4], c) * 8 + col_bit(rows[5], c) * 4
        + col_bit(rows[6], c) * 2 + col_bit(rows[7], c)) as u8
}

/// The transpose of an 8x8 bit matrix given as 8 row bytes: row `c` of the
/// result is the former column `c`, and vice versa.
pub open spec fn transpose_spec(rows: Seq<u8>) -> Seq<u8>
    recommends
        rows.len() == 8,
{
    Seq::new(8, |c: int| col_byte(rows, c))
}

/// How many bits of `b` are set.
pub open spec fn popcnt8(b: u8) -> int {
    (b & 1) + ((b >> 1) & 1) + ((b >> 2) & 1) + ((b >> 3) & 1) + ((b >> 4) & 1) + ((b >> 5) & 1)
        + ((b >> 6) & 1) + ((b >> 7) & 1)
}

/// One row after the scrolling step: the row `a` moves one column to the
/// left, and the leftmost column of the following row `b` wraps into the
/// vacated rightmost column.
pub open spec fn shifted_row(a: u8, b: u8) -> u8 {
    (a << 1) | (b >> 7)
}

/// Column `r` of the packed column byte is column `c` of row `r`: reading
/// a bit out of `col_byte` gives back the matrix bit that went in.
pub proof fn lemma_col_byte_bit(rows: Seq<u8>, c: int, r: int)
    requires
        rows.len() == 8,
        0 <= c < 8,
        0 <= r < 8,
    ensures
        col_bit(col_byte(rows, c), r) == col_bit(rows[r], c),
{
    let b0 = rows[0];
    let b1 = rows[1];
    let b2 = rows[2];
    let b3 = rows[3];
    let b4 = rows[4];
    let b5 = rows[5];
    let b6 = rows[6];
    let b7 = rows[7];
    let sh = (7 - c) as u8;
    let byte = col_byte(rows, c);
    assert((byte >> 7) & 1 == (b0 >> sh) & 1 && (byte >> 6) & 1 == (b1 >> sh) & 1 && (byte >> 5)
        & 1 == (b2 >> sh) & 1 && (byte >> 4) & 1 == (b3 >> sh) & 1 && (byte >> 3) & 1 == (b4 >> sh)
        & 1 && (byte >> 2) & 1 == (b5 >> sh) & 1 && (byte >> 1) & 1 == (b6 >> sh) & 1 && byte & 1
        == (b7 >> sh) & 1) by (bit_vector)
        requires
            byte == (((b0 >> sh) & 1) * 0x80 + ((b1 >> sh) & 1) * 0x40 + ((b2 >> sh) & 1) * 0x20 + (
            (b3 >> sh) & 1) * 0x10 + ((b4 >> sh) & 1) * 8 + ((b5 >> sh) & 1) * 4 + ((b6 >> sh) & 1)
                * 2 + ((b7 >> sh) & 1)) as u8,
    ;
    if r == 0 {
        assert(col_bit(byte, 0) == (byte >> 7) & 1);
    } else if r == 1 {
        assert(col_bit(byte, 1) == (byte >> 6) & 1);
    } else if r == 2 {
        assert(col_bit(byte, 2) == (byte >> 5) & 1);
    } else if r == 3 {
        assert(col_bit(byte, 3) == (byte >> 4) & 1);
    } else if r == 4 {
        assert(col_bit(byte, 4) == (byte >> 3) & 1);
    } else if r == 5 {
        assert(col_bit(byte, 5) == (byte >> 2) & 1);
    } else if r == 6 {
        assert(col_bit(byte, 6) == (byte >> 1) & 1);
    } else {
        assert((byte >> 0u8) & 1 == byte & 1) by (bit_vector);
        assert(col_bit(byte, 7) == byte & 1);
    }
}

/// Two bytes whose eight columns agree are the same byte.
pub proof fn lemma_col_bits_determine_byte(a: u8, b: u8)
    requires
        forall|c: int| 0 <= c < 8 ==> col_bit(a, c) == col_bit(b, c),
    ensures
        a == b,
{
    assert(col_bit(a, 0) == col_bit(b, 0));
    assert(col_bit(a, 1) == col_bit(b, 1));
    assert(col_bit(a, 2) == col_bit(b, 2));
    assert(col_bit(a, 3) == col_bit(b, 3));
    assert(col_bit(a, 4) == col_bit(b, 4));
    assert(col_bit(a, 5) == col_bit(b, 5));
    assert(col_bit(a, 6) == col_bit(b, 6));
    assert(col_bit(a, 7) == col_bit(b, 7));
    assert(((a >> 7u8) & 1 == (b >> 7u8) & 1 && (a >> 6u8) & 1 == (b >> 6u8) & 1 && (a >> 5u8) & 1
        == (b >> 5u8) & 1 && (a >> 4u8) & 1 == (b >> 4u8) & 1 && (a >> 3u8) & 1 == (b >> 3u8) & 1
        && (a >> 2u8) & 1 == (b >> 2u8) & 1 && (a >> 1u8) & 1 == (b >> 1u8) & 1 && (a >> 0u8) & 1
        == (b >> 0u8) & 1) ==> a == b) by (bit_vector);
}

} // verus!
