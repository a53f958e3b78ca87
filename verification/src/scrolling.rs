//! The scrolling step: a circular one-column left shift across the whole
//! display sequence, and the proof that no set pixel is ever gained or
//! lost by it.

use crate::bits::popcnt8;
use crate::bits::shifted_row;
use crate::mappings::SingleDisplayData;
use vstd::arithmetic::div_mod::lemma_mod_self_0;
use vstd::arithmetic::div_mod::lemma_small_mod;
use vstd::prelude::*;

verus! {

/// How many bits one display has set.
pub open spec fn display_bits(d: SingleDisplayData) -> int {
    popcnt8(d@[0]) + popcnt8(d@[1]) + popcnt8(d@[2]) + popcnt8(d@[3]) + popcnt8(d@[4]) + popcnt8(
        d@[5],
    ) + popcnt8(d@[6]) + popcnt8(d@[7])
}

/// How many bits the first `k` displays of the sequence have set.
pub open spec fn total_bits_prefix(s: Seq<SingleDisplayData>, k: int) -> int
    decreases k,
{
    if k <= 0 {
        0
    } else {
        total_bits_prefix(s, k - 1) + display_bits(s[k - 1])
    }
}

/// How many bits the whole sequence has set.
pub open spec fn total_bits(s: Seq<SingleDisplayData>) -> int {
    total_bits_prefix(s, s.len() as int)
}

/// How many rows of the display have their leftmost column set: the bits
/// that a shift step carries over to the neighbouring display.
pub open spec fn msb_bits(d: SingleDisplayData) -> int {
    ((d@[0] >> 7u8) & 1) + ((d@[1] >> 7u8) & 1) + ((d@[2] >> 7u8) & 1) + ((d@[3] >> 7u8) & 1) + ((
    d@[4] >> 7u8) & 1) + ((d@[5] >> 7u8) & 1) + ((d@[6] >> 7u8) & 1) + ((d@[7] >> 7u8) & 1)
}

/// `msb_bits` summed over the first `k` displays.
pub open spec fn msb_prefix(s: Seq<SingleDisplayData>, k: int) -> int
    decreases k,
{
    if k <= 0 {
        0
    } else {
        msb_prefix(s, k - 1) + msb_bits(s[k - 1])
    }
}

/// `msb_bits` summed over the right-hand neighbours (circularly) of the
/// first `k` displays.
pub open spec fn msb_rot_prefix(s: Seq<SingleDisplayData>, k: int) -> int
    decreases k,
{
    if k <= 0 || s.len() == 0 {
        0
    } else {
        msb_rot_prefix(s, k - 1) + msb_bits(s[k % (s.len() as int)])
    }
}

/// Shifts all row bits one column to the left, across the whole sequence.
/// The leftmost column of each display position moves into the rightmost
/// column of the previous position; the leftmost column of position 0
/// wraps around into the rightmost column of the last position.  Content
/// that scrolls out on the left therefore reappears on the right after a
/// full cycle.
pub fn shift_all_rows_one_bit_left(moving_bits: &mut Vec<SingleDisplayData>)
    ensures
        final(moving_bits)@.len() == old(moving_bits)@.len(),
        forall|i: int, r: int|
            0 <= i < old(moving_bits)@.len() && 0 <= r < 8 ==> final(moving_bits)@[i]@[r]
                == shifted_row(
                old(moving_bits)@[i]@[r],
                old(moving_bits)@[(i + 1) % (old(moving_bits)@.len() as int)]@[r],
            ),
{
    let len = moving_bits.len();
    if len == 0 {
        return ;
    }
    let first: SingleDisplayData = moving_bits[0];
    let mut display_i: usize = 0;
    while display_i < len - 1
        invariant
            len == old(moving_bits)@.len(),
            1 <= len,
            display_i < len,
            moving_bits@.len() == len,
            first == old(moving_bits)@[0],
            forall|k: int, r: int|
                0 <= k < display_i && 0 <= r < 8 ==> moving_bits@[k]@[r] == shifted_row(
                    old(moving_bits)@[k]@[r],
                    old(moving_bits)@[k + 1]@[r],
                ),
            forall|k: int| display_i <= k < len ==> moving_bits@[k] == old(moving_bits)@[k],
        decreases len - display_i,
    {
        let a: SingleDisplayData = moving_bits[display_i];
        let b: SingleDisplayData = moving_bits[display_i + 1];
        moving_bits[display_i] = shift_display(&a, &b);
        display_i = display_i + 1;
    }
    let a: SingleDisplayData = moving_bits[len - 1];
    moving_bits[len - 1] = shift_display(&a, &first);
    proof {
        let n = old(moving_bits)@.len() as int;
        assert forall|i: int, r: int| 0 <= i < n && 0 <= r < 8 implies moving_bits@[i]@[r]
            == shifted_row(old(moving_bits)@[i]@[r], old(moving_bits)@[(i + 1) % n]@[r]) by {
            if i < n - 1 {
                lemma_small_mod((i + 1) as nat, n as nat);
                assert((i + 1) % n == i + 1);
            } else {
                lemma_mod_self_0(n);
                assert((i + 1) % n == 0);
            }
        }
    }
}

/// One display after the shift step: `a` is this display, `b` the one the
/// wrapped-in column comes from.
fn shift_display(a: &SingleDisplayData, b: &SingleDisplayData) -> (shifted: SingleDisplayData)
    ensures
        forall|r: int| 0 <= r < 8 ==> shifted@[r] == shifted_row(a@[r], b@[r]),
{
    let mut shifted: SingleDisplayData = [0; 8];
    let mut row_i: usize = 0;
    while row_i < 8
        invariant
            row_i <= 8,
            forall|r: int| 0 <= r < row_i ==> shifted@[r] == shifted_row(a@[r], b@[r]),
        decreases 8 - row_i,
    {
        shifted[row_i] = (a[row_i] << 1) | (b[row_i] >> 7);
        row_i = row_i + 1;
    }
    shifted
}

/// One shifted row keeps as many set bits as the row it came from, minus
/// the bit that left on its left edge, plus the bit that wrapped in.
proof fn lemma_popcnt_shifted(a: u8, b: u8)
    ensures
        popcnt8(shifted_row(a, b)) == popcnt8(a) - ((a >> 7u8) & 1) + ((b >> 7u8) & 1),
{
    assert(popcnt8((a << 1u8) | (b >> 7u8)) == popcnt8(a) - ((a >> 7u8) & 1) + ((b >> 7u8)
        & 1)) by (bit_vector);
}

/// The shifted form of one display keeps its bit count, up to the columns
/// exchanged with its neighbour.
proof fn lemma_display_shift_bits(a: SingleDisplayData, b: SingleDisplayData, t: SingleDisplayData)
    requires
        forall|r: int| 0 <= r < 8 ==> t@[r] == shifted_row(a@[r], b@[r]),
    ensures
        display_bits(t) == display_bits(a) - msb_bits(a) + msb_bits(b),
{
    lemma_popcnt_shifted(a@[0], b@[0]);
    lemma_popcnt_shifted(a@[1], b@[1]);
    lemma_popcnt_shifted(a@[2], b@[2]);
    lemma_popcnt_shifted(a@[3], b@[3]);
    lemma_popcnt_shifted(a@[4], b@[4]);
    lemma_popcnt_shifted(a@[5], b@[5]);
    lemma_popcnt_shifted(a@[6], b@[6]);
    lemma_popcnt_shifted(a@[7], b@[7]);
}

/// Prefix form of the conservation argument: the first `k` shifted
/// displays hold the bits of the first `k` old ones, corrected by the
/// columns that crossed their boundaries.
proof fn lemma_prefix_shift_bits(s: Seq<SingleDisplayData>, t: Seq<SingleDisplayData>, k: int)
    requires
        t.len() == s.len(),
        s.len() >= 1,
        0 <= k <= s.len(),
        forall|i: int, r: int|
            0 <= i < s.len() && 0 <= r < 8 ==> t[i]@[r] == shifted_row(
                s[i]@[r],
                s[(i + 1) % (s.len() as int)]@[r],
            ),
    ensures
        total_bits_prefix(t, k) == total_bits_prefix(s, k) - msb_prefix(s, k) + msb_rot_prefix(
            s,
            k,
        ),
    decreases k,
{
    if k > 0 {
        lemma_prefix_shift_bits(s, t, k - 1);
        let n = s.len() as int;
        lemma_display_shift_bits(s[k - 1], s[k % n], t[k - 1]);
    }
}

/// The neighbour sum over all displays is a reordering of the plain sum.
proof fn lemma_rot_prefix_total(s: Seq<SingleDisplayData>, k: int)
    requires
        s.len() >= 1,
        0 <= k < s.len(),
    ensures
        msb_rot_prefix(s, k) == msb_prefix(s, k + 1) - msb_bits(s[0]),
    decreases k,
{
    if k == 0 {
        assert(msb_prefix(s, 1) == msb_prefix(s, 0) + msb_bits(s[0]));
    } else {
        lemma_rot_prefix_total(s, k - 1);
        lemma_small_mod(k as nat, s.len());
        assert(k % (s.len() as int) == k);
        assert(msb_rot_prefix(s, k) == msb_rot_prefix(s, k - 1) + msb_bits(s[k % (s.len() as int)]));
        assert(msb_prefix(s, k + 1) == msb_prefix(s, k) + msb_bits(s[k]));
    }
}

/// One scrolling step conserves the total number of set bits: the carry
/// is circular, so bits are relocated, never created or destroyed.
/// `before` and `after` are the sequence's rows before and after one
/// `shift_all_rows_one_bit_left` call, related as its contract states.
pub proof fn lemma_shift_conserves_set_bits(
    before: Seq<SingleDisplayData>,
    after: Seq<SingleDisplayData>,
)
    requires
        after.len() == before.len(),
        forall|i: int, r: int|
            0 <= i < before.len() && 0 <= r < 8 ==> after[i]@[r] == shifted_row(
                before[i]@[r],
                before[(i + 1) % (before.len() as int)]@[r],
            ),
    ensures
        total_bits(after) == total_bits(before),
{
    if before.len() > 0 {
        let n = before.len() as int;
        lemma_prefix_shift_bits(before, after, n);
        lemma_mod_self_0(n);
        lemma_rot_prefix_total(before, n - 1);
        assert(msb_rot_prefix(before, n) == msb_rot_prefix(before, n - 1) + msb_bits(
            before[n % n],
        ));
        assert(msb_rot_prefix(before, n) == msb_prefix(before, n));
    }
}

} // verus!
