//! Transposing one display's 8x8 bit matrix: columns become rows and rows
//! become columns.  The gap compactor uses this to get a column-major view
//! of the data and to turn it back into row-major form afterwards.

use crate::bits::col_bit;
use crate::bits::col_byte;
use crate::bits::lemma_col_bits_determine_byte;
use crate::bits::lemma_col_byte_bit;
use crate::bits::transpose_spec;
use crate::mappings::SingleDisplayData;
use vstd::prelude::*;

verus! {

/// Transposes the matrix: bit `c` of output row `r` is bit `r` of input
/// row `c`.  Output row `r` collects column `r` of all 8 input rows, the
/// bit of input row 0 ending up in the most significant position.
pub fn transpose_single_display_data(data: &SingleDisplayData) -> (transposed: SingleDisplayData)
    ensures
        transposed@ == transpose_spec(data@),
{
    let mut transposed: SingleDisplayData = [0; 8];
    let mut col_i: usize = 0;
    while col_i < 8
        invariant
            col_i <= 8,
            forall|j: int| 0 <= j < col_i ==> transposed@[j] == col_byte(data@, j),
        decreases 8 - col_i,
    {
        let sh: u8 = (7 - col_i) as u8;
        // the bits of column `col_i`, one per input row, packed MSB-first
        let col: u8 = (((data[0] >> sh) & 1) << 7) | (((data[1] >> sh) & 1) << 6) | (((data[2]
            >> sh) & 1) << 5) | (((data[3] >> sh) & 1) << 4) | (((data[4] >> sh) & 1) << 3) | (((
        data[5] >> sh) & 1) << 2) | (((data[6] >> sh) & 1) << 1) | ((data[7] >> sh) & 1);
        proof {
            let b0 = data@[0];
            let b1 = data@[1];
            let b2 = data@[2];
            let b3 = data@[3];
            let b4 = data@[4];
            let b5 = data@[5];
            let b6 = data@[6];
            let b7 = data@[7];
            assert((((b0 >> sh) & 1) << 7) | (((b1 >> sh) & 1) << 6) | (((b2 >> sh) & 1) << 5) | (((
            b3 >> sh) & 1) << 4) | (((b4 >> sh) & 1) << 3) | (((b5 >> sh) & 1) << 2) | (((b6 >> sh)
                & 1) << 1) | ((b7 >> sh) & 1) == (((b0 >> sh) & 1) * 0x80 + ((b1 >> sh) & 1) * 0x40
                + ((b2 >> sh) & 1) * 0x20 + ((b3 >> sh) & 1) * 0x10 + ((b4 >> sh) & 1) * 8 + ((b5
                >> sh) & 1) * 4 + ((b6 >> sh) & 1) * 2 + ((b7 >> sh) & 1)) as u8) by (bit_vector);
            assert(col == col_byte(data@, col_i as int));
        }
        transposed[col_i] = col;
        col_i = col_i + 1;
    }
    proof {
        assert(transposed@ =~= transpose_spec(data@));
    }
    transposed
}

/// Transposing is an involution: transposing a transposed matrix gives the
/// original matrix back.
pub proof fn lemma_transpose_involution(rows: Seq<u8>)
    requires
        rows.len() == 8,
    ensures
        transpose_spec(transpose_spec(rows)) == rows,
{
    let t = transpose_spec(rows);
    let u = transpose_spec(t);
    assert forall|r: int| 0 <= r < 8 implies u[r] == rows[r] by {
        assert forall|c: int| 0 <= c < 8 implies col_bit(u[r], c) == col_bit(rows[r], c) by {
            lemma_col_byte_bit(t, r, c);
            lemma_col_byte_bit(rows, c, r);
        }
        lemma_col_bits_determine_byte(u[r], rows[r]);
    }
    assert(u =~= rows);
}

} // verus!
