//! Gap compaction ("kerning"): rewriting a bitmap sequence so that runs
//! of blank columns between glyphs are capped at a configured width,
//! while the blank runs at the very beginning and end of the message are
//! kept verbatim.
//!
//! The model works on the column-major view of the sequence: every
//! display transposed and the resulting rows (one byte per physical LED
//! column) concatenated.  Compaction scans that stream, re-pads it to a
//! multiple of eight columns, and folds it back into 8x8 bitmaps.

use crate::bits::transpose_spec;
use crate::encoding::encode_spec;
use crate::encoding::encode_string;
use crate::mappings::SingleDisplayData;
use crate::transpose::transpose_single_display_data;
use vstd::arithmetic::div_mod::lemma_fundamental_div_mod;
use vstd::arithmetic::div_mod::lemma_mod_multiples_basic;
use vstd::prelude::*;

verus! {

/// Column-major view of the whole sequence: each display transposed, the
/// transposed rows concatenated from left to right.  One byte per LED
/// column of the virtual display chain.
pub open spec fn expand_spec(s: Seq<SingleDisplayData>) -> Seq<u8>
    decreases s.len(),
{
    if s.len() == 0 {
        Seq::empty()
    } else {
        transpose_spec(s[0]@) + expand_spec(s.drop_first())
    }
}

/// Length of the run of all-zero columns at the front of the stream.
pub open spec fn leading_zero_cols(q: Seq<u8>) -> int
    decreases q.len(),
{
    if q.len() == 0 {
        0
    } else if q[0] != 0 {
        0
    } else {
        1 + leading_zero_cols(q.drop_first())
    }
}

/// Length of the run of all-zero columns at the back of the stream.
pub open spec fn trailing_zero_cols(q: Seq<u8>) -> int
    decreases q.len(),
{
    if q.len() == 0 {
        0
    } else if q[q.len() - 1] != 0 {
        0
    } else {
        1 + trailing_zero_cols(q.drop_last())
    }
}

/// `n` all-zero columns.
pub open spec fn zero_cols(n: int) -> Seq<u8> {
    Seq::new(n as nat, |i: int| 0u8)
}

/// The interior scan.  `run` is the length of the zero run immediately
/// before `q`.  A lit column is always kept and resets the run; a zero
/// column is kept only while the run it extends is still at most `gap`
/// long, the excess beyond `gap` is dropped.
pub open spec fn scan_gaps(q: Seq<u8>, gap: int, run: int) -> Seq<u8>
    decreases q.len(),
{
    if q.len() == 0 {
        Seq::empty()
    } else if q[0] != 0 {
        seq![q[0]] + scan_gaps(q.drop_first(), gap, 0)
    } else if run + 1 <= gap {
        seq![0u8] + scan_gaps(q.drop_first(), gap, run + 1)
    } else {
        scan_gaps(q.drop_first(), gap, run + 1)
    }
}

/// The compacted column stream, before padding: the leading and trailing
/// all-zero runs verbatim, the interior between them scanned.  A stream
/// with no lit column at all is kept unchanged.
pub open spec fn compact_cols_unpadded(s: Seq<SingleDisplayData>, gap: int) -> Seq<u8> {
    let q = expand_spec(s);
    let lead = leading_zero_cols(q);
    if lead == q.len() {
        q
    } else {
        let trail = trailing_zero_cols(q);
        zero_cols(lead) + scan_gaps(q.subrange(lead, q.len() - trail), gap, 0) + zero_cols(trail)
    }
}

/// How many zero columns padding appends so that a stream of `n` columns
/// can be cut into whole 8-column groups.  A count that is already a
/// multiple of eight needs none.
pub open spec fn pad_len(n: int) -> int {
    if n % 8 == 0 {
        0
    } else {
        8 - n % 8
    }
}

/// The compacted column stream, zero-padded at the end to a multiple of
/// eight columns.
pub open spec fn compact_cols(s: Seq<SingleDisplayData>, gap: int) -> Seq<u8> {
    let u = compact_cols_unpadded(s, gap);
    u + zero_cols(pad_len(u.len() as int))
}

/// The compacted bitmap sequence: the padded column stream cut into
/// groups of eight columns, each group transposed back into row-major
/// form.  Element `k` is the row view of output display `k`.
pub open spec fn compact_spec(s: Seq<SingleDisplayData>, gap: int) -> Seq<Seq<u8>> {
    let cols = compact_cols(s, gap);
    Seq::new(
        ((cols.len() as int) / 8) as nat,
        |k: int| transpose_spec(cols.subrange(8 * k, 8 * k + 8)),
    )
}

/// The column stream of a sequence is eight columns per display.
pub proof fn lemma_expand_len(s: Seq<SingleDisplayData>)
    ensures
        expand_spec(s).len() == 8 * s.len(),
    decreases s.len(),
{
    if s.len() > 0 {
        lemma_expand_len(s.drop_first());
    }
}

/// Extending the expanded prefix by one display appends that display's
/// eight columns.
pub proof fn lemma_expand_take_snoc(s: Seq<SingleDisplayData>, i: int)
    requires
        0 <= i < s.len(),
    ensures
        expand_spec(s.take(i + 1)) == expand_spec(s.take(i)) + transpose_spec(s[i]@),
    decreases i,
{
    if i == 0 {
        assert(s.take(1).drop_first() =~= Seq::<SingleDisplayData>::empty());
        assert(s.take(0) =~= Seq::<SingleDisplayData>::empty());
        assert(expand_spec(s.take(1)) == transpose_spec(s[0]@) + expand_spec(
            Seq::<SingleDisplayData>::empty(),
        ));
        assert(expand_spec(s.take(1)) =~= expand_spec(s.take(0)) + transpose_spec(s[0]@));
    } else {
        lemma_expand_take_snoc(s.drop_first(), i - 1);
        assert(s.take(i + 1).drop_first() =~= s.drop_first().take(i));
        assert(s.take(i).drop_first() =~= s.drop_first().take(i - 1));
        assert(s.take(i + 1)[0] == s[0]);
        assert(s.take(i)[0] == s[0]);
        assert(s.drop_first()[i - 1] == s[i]);
        assert(expand_spec(s.take(i + 1)) == transpose_spec(s[0]@) + (expand_spec(
            s.drop_first().take(i - 1),
        ) + transpose_spec(s[i]@)));
        assert(expand_spec(s.take(i)) == transpose_spec(s[0]@) + expand_spec(
            s.drop_first().take(i - 1),
        ));
        assert(transpose_spec(s[0]@) + (expand_spec(s.drop_first().take(i - 1)) + transpose_spec(
            s[i]@,
        )) =~= (transpose_spec(s[0]@) + expand_spec(s.drop_first().take(i - 1))) + transpose_spec(
            s[i]@,
        ));
    }
}

/// A count of zero columns from the front that stops at a lit column (or
/// at the end) is exactly the leading run length.
pub proof fn lemma_leading_zero_cols_char(q: Seq<u8>, k: int)
    requires
        0 <= k <= q.len(),
        forall|j: int| 0 <= j < k ==> q[j] == 0,
        k < q.len() ==> q[k] != 0,
    ensures
        leading_zero_cols(q) == k,
    decreases q.len(),
{
    if q.len() > 0 && k > 0 {
        assert(q[0] == 0);
        assert forall|j: int| 0 <= j < k - 1 implies q.drop_first()[j] == 0 by {
            assert(q.drop_first()[j] == q[j + 1]);
        }
        if k - 1 < q.drop_first().len() {
            assert(q.drop_first()[k - 1] == q[k]);
        }
        lemma_leading_zero_cols_char(q.drop_first(), k - 1);
    }
}

/// What the leading run length means: that many zero columns, and then,
/// unless the whole stream is blank, a lit one.
pub proof fn lemma_leading_zero_cols_props(q: Seq<u8>)
    ensures
        0 <= leading_zero_cols(q) <= q.len(),
        forall|j: int| 0 <= j < leading_zero_cols(q) ==> q[j] == 0,
        leading_zero_cols(q) < q.len() ==> q[leading_zero_cols(q)] != 0,
    decreases q.len(),
{
    if q.len() > 0 && q[0] == 0 {
        lemma_leading_zero_cols_props(q.drop_first());
        let lz = leading_zero_cols(q);
        assert forall|j: int| 0 <= j < lz implies q[j] == 0 by {
            if j > 0 {
                assert(q.drop_first()[j - 1] == q[j]);
            }
        }
        if lz < q.len() {
            assert(q.drop_first()[lz - 1] == q[lz]);
        }
    }
}

/// A count of zero columns from the back that stops at a lit column (or
/// at the front) is exactly the trailing run length.
pub proof fn lemma_trailing_zero_cols_char(q: Seq<u8>, k: int)
    requires
        0 <= k <= q.len(),
        forall|j: int| q.len() - k <= j < q.len() ==> q[j] == 0,
        k < q.len() ==> q[q.len() - k - 1] != 0,
    ensures
        trailing_zero_cols(q) == k,
    decreases q.len(),
{
    if q.len() > 0 && k > 0 {
        assert(q[q.len() - 1] == 0);
        let r = q.drop_last();
        assert forall|j: int| r.len() - (k - 1) <= j < r.len() implies r[j] == 0 by {
            assert(r[j] == q[j]);
        }
        if k - 1 < r.len() {
            assert(r[r.len() - (k - 1) - 1] == q[q.len() - k - 1]);
        }
        lemma_trailing_zero_cols_char(r, k - 1);
    }
}

/// What the trailing run length means: that many zero columns at the
/// back, preceded, unless the whole stream is blank, by a lit one.
pub proof fn lemma_trailing_zero_cols_props(q: Seq<u8>)
    ensures
        0 <= trailing_zero_cols(q) <= q.len(),
        forall|j: int| q.len() - trailing_zero_cols(q) <= j < q.len() ==> q[j] == 0,
        trailing_zero_cols(q) < q.len() ==> q[q.len() - trailing_zero_cols(q) - 1] != 0,
    decreases q.len(),
{
    if q.len() > 0 && q[q.len() - 1] == 0 {
        let r = q.drop_last();
        lemma_trailing_zero_cols_props(r);
        let tz = trailing_zero_cols(q);
        assert forall|j: int| q.len() - tz <= j < q.len() implies q[j] == 0 by {
            if j < q.len() - 1 {
                assert(r[j] == q[j]);
            }
        }
        if tz < q.len() {
            assert(r[r.len() - (tz - 1) - 1] == q[q.len() - tz - 1]);
        }
    }
}

/// Prepending zero columns lengthens the leading run by as much.
proof fn lemma_leading_prepend_zeros(r: Seq<u8>, a: int)
    requires
        a >= 0,
    ensures
        leading_zero_cols(zero_cols(a) + r) == a + leading_zero_cols(r),
    decreases a,
{
    if a == 0 {
        assert(zero_cols(0) + r =~= r);
    } else {
        let w = zero_cols(a) + r;
        assert(w[0] == 0);
        assert(w.drop_first() =~= zero_cols(a - 1) + r);
        lemma_leading_prepend_zeros(r, a - 1);
    }
}

/// Appending zero columns lengthens the trailing run by as much.
proof fn lemma_trailing_append_zeros(r: Seq<u8>, a: int)
    requires
        a >= 0,
    ensures
        trailing_zero_cols(r + zero_cols(a)) == trailing_zero_cols(r) + a,
    decreases a,
{
    if a == 0 {
        assert(r + zero_cols(0) =~= r);
    } else {
        let w = r + zero_cols(a);
        assert(w[w.len() - 1] == 0);
        assert(w.drop_last() =~= r + zero_cols(a - 1));
        lemma_trailing_append_zeros(r, a - 1);
    }
}

/// The scan never drops a lit column, so a stream that starts lit scans
/// to a stream that starts with that same column.
proof fn lemma_scan_keeps_first(q: Seq<u8>, gap: int, run: int)
    requires
        q.len() > 0,
        q[0] != 0,
    ensures
        scan_gaps(q, gap, run).len() > 0,
        scan_gaps(q, gap, run)[0] == q[0],
{
    assert(scan_gaps(q, gap, run) == seq![q[0]] + scan_gaps(q.drop_first(), gap, 0));
}

/// A stream that ends lit scans to a stream that ends with that same
/// column: the scan only ever drops zero columns.
proof fn lemma_scan_keeps_last(q: Seq<u8>, gap: int, run: int)
    requires
        q.len() > 0,
        q[q.len() - 1] != 0,
    ensures
        scan_gaps(q, gap, run).len() > 0,
        scan_gaps(q, gap, run)[scan_gaps(q, gap, run).len() - 1] == q[q.len() - 1],
    decreases q.len(),
{
    if q.len() == 1 {
        assert(q.drop_first() =~= Seq::<u8>::empty());
        assert(scan_gaps(q, gap, run) == seq![q[0]] + Seq::<u8>::empty());
        assert(scan_gaps(q, gap, run)[0] == q[0]);
    } else {
        let rest = q.drop_first();
        assert(rest[rest.len() - 1] == q[q.len() - 1]);
        if q[0] != 0 {
            lemma_scan_keeps_last(rest, gap, 0);
            let sc = scan_gaps(rest, gap, 0);
            assert((seq![q[0]] + sc)[(seq![q[0]] + sc).len() - 1] == sc[sc.len() - 1]);
        } else if run + 1 <= gap {
            lemma_scan_keeps_last(rest, gap, run + 1);
            let sc = scan_gaps(rest, gap, run + 1);
            assert((seq![0u8] + sc)[(seq![0u8] + sc).len() - 1] == sc[sc.len() - 1]);
        } else {
            lemma_scan_keeps_last(rest, gap, run + 1);
        }
    }
}

/// Compaction reproduces the edges of the message: the output's leading
/// blank run is exactly the input's, whatever the gap width; the
/// trailing blank run is the input's plus only the final padding — it is
/// never shortened.
pub proof fn lemma_compaction_preserves_edges(s: Seq<SingleDisplayData>, gap: int)
    ensures
        leading_zero_cols(compact_cols(s, gap)) == leading_zero_cols(expand_spec(s)),
        trailing_zero_cols(compact_cols(s, gap)) == trailing_zero_cols(expand_spec(s)) + pad_len(
            compact_cols_unpadded(s, gap).len() as int,
        ),
{
    let q = expand_spec(s);
    let lead = leading_zero_cols(q);
    let trail = trailing_zero_cols(q);
    let u = compact_cols_unpadded(s, gap);
    let pad = pad_len(u.len() as int);
    let cols = compact_cols(s, gap);
    lemma_leading_zero_cols_props(q);
    lemma_trailing_zero_cols_props(q);
    if lead == q.len() {
        // no lit column anywhere: the stream is kept, and eight columns
        // per display means no padding either
        lemma_expand_len(s);
        lemma_mod_multiples_basic(s.len() as int, 8);
        assert(pad == 0);
        assert(cols =~= q);
    } else {
        assert(trail < q.len()) by {
            if trail == q.len() {
                assert(q[lead] == 0);
            }
        }
        assert(lead < q.len() - trail) by {
            if lead >= q.len() - trail {
                assert(q[lead] == 0);
            }
        }
        let interior = q.subrange(lead, q.len() - trail);
        assert(interior[0] == q[lead]);
        assert(interior[interior.len() - 1] == q[q.len() - trail - 1]);
        let sc = scan_gaps(interior, gap, 0);
        lemma_scan_keeps_first(interior, gap, 0);
        lemma_scan_keeps_last(interior, gap, 0);
        // the leading run: everything after it starts with a lit column
        let after_lead = sc + zero_cols(trail) + zero_cols(pad);
        assert(cols =~= zero_cols(lead) + after_lead);
        lemma_leading_prepend_zeros(after_lead, lead);
        assert(after_lead[0] == sc[0]);
        assert(leading_zero_cols(after_lead) == 0);
        // the trailing run: everything before it ends with a lit column
        let before_tail = zero_cols(lead) + sc;
        assert(cols =~= before_tail + zero_cols(trail + pad));
        lemma_trailing_append_zeros(before_tail, trail + pad);
        assert(before_tail[before_tail.len() - 1] == sc[sc.len() - 1]);
        assert(trailing_zero_cols(before_tail) == 0);
    }
}

/// The compacted column stream always has a length that is a multiple of
/// eight, so it folds back into whole 8x8 bitmaps and the output sequence
/// holds exactly one bitmap per group of eight columns.
pub proof fn lemma_compacted_cols_multiple_of_eight(s: Seq<SingleDisplayData>, gap: int)
    ensures
        compact_cols(s, gap).len() % 8 == 0,
        8 * compact_spec(s, gap).len() == compact_cols(s, gap).len(),
{
    let n = compact_cols_unpadded(s, gap).len() as int;
    let cols = compact_cols(s, gap);
    lemma_fundamental_div_mod(n, 8);
    if n % 8 == 0 {
        assert(cols.len() as int == n);
        lemma_mod_multiples_basic(n / 8, 8);
    } else {
        assert(cols.len() as int == n + (8 - n % 8));
        assert(cols.len() as int == 8 * (n / 8 + 1));
        lemma_mod_multiples_basic(n / 8 + 1, 8);
    }
    lemma_fundamental_div_mod(cols.len() as int, 8);
}

/// Rewrites the sequence so that every interior run of all-zero columns
/// is capped at `min_gap_size` columns.  The blank runs at the very
/// beginning and end of the whole message are kept verbatim, whatever
/// `min_gap_size` is; the result is zero-padded at the end to whole 8x8
/// bitmaps.  With `min_gap_size == 0` every interior blank column is
/// removed, spaces between words among them — a caller who wants no
/// compaction at all simply does not call this function.
pub fn remove_gaps_in_display_text(
    display_data_arr: &Vec<SingleDisplayData>,
    min_gap_size: usize,
) -> (compacted: Vec<SingleDisplayData>)
    ensures
        compacted@.len() == compact_spec(display_data_arr@, min_gap_size as int).len(),
        forall|k: int|
            0 <= k < compacted@.len() ==> compacted@[k]@ == compact_spec(
                display_data_arr@,
                min_gap_size as int,
            )[k],
{
    let ghost s = display_data_arr@;
    let ghost g = min_gap_size as int;

    // the column-major view of the whole sequence
    let mut expanded: Vec<u8> = Vec::new();
    let mut d: usize = 0;
    while d < display_data_arr.len()
        invariant
            d <= s.len(),
            s == display_data_arr@,
            expanded@ == expand_spec(s.take(d as int)),
        decreases s.len() - d,
    {
        let t = transpose_single_display_data(&display_data_arr[d]);
        proof {
            assert(expanded@ =~= expand_spec(s.take(d as int)) + t@.take(0));
        }
        let mut r: usize = 0;
        while r < 8
            invariant
                r <= 8,
                d < s.len(),
                s == display_data_arr@,
                t@ == transpose_spec(s[d as int]@),
                expanded@ == expand_spec(s.take(d as int)) + t@.take(r as int),
            decreases 8 - r,
        {
            expanded.push(t[r]);
            r = r + 1;
            proof {
                assert(expanded@ =~= expand_spec(s.take(d as int)) + t@.take(r as int));
            }
        }
        proof {
            assert(t@.take(8) =~= t@);
            lemma_expand_take_snoc(s, d as int);
        }
        d = d + 1;
    }
    proof {
        assert(s.take(s.len() as int) =~= s);
    }
    let ghost q = expand_spec(s);
    let total = expanded.len();

    // the leading run of blank columns
    let mut lead: usize = 0;
    while lead < total && expanded[lead] == 0
        invariant
            lead <= total,
            total == q.len(),
            expanded@ == q,
            forall|j: int| 0 <= j < lead ==> q[j] == 0,
        decreases total - lead,
    {
        lead = lead + 1;
    }
    proof {
        lemma_leading_zero_cols_char(q, lead as int);
    }
    let mut out: Vec<u8> = Vec::new();
    if lead == total {
        // no lit column anywhere: the stream is kept unchanged
        let mut i: usize = 0;
        while i < total
            invariant
                i <= total,
                total == q.len(),
                expanded@ == q,
                out@ == q.take(i as int),
            decreases total - i,
        {
            out.push(expanded[i]);
            i = i + 1;
        }
        proof {
            assert(q.take(total as int) =~= q);
            assert(out@ == compact_cols_unpadded(s, g));
        }
    } else {
        // the trailing run of blank columns
        let mut trail: usize = 0;
        while trail < total && expanded[total - 1 - trail] == 0
            invariant
                trail <= total,
                total == q.len(),
                expanded@ == q,
                forall|j: int| total - trail <= j < total ==> q[j] == 0,
            decreases total - trail,
        {
            trail = trail + 1;
        }
        proof {
            lemma_trailing_zero_cols_char(q, trail as int);
            assert(q[lead as int] != 0);
            assert(trail < total - lead);
        }
        let end = total - trail;

        // the leading run, verbatim
        proof {
            assert(out@ =~= zero_cols(0));
        }
        let mut z: usize = 0;
        while z < lead
            invariant
                z <= lead,
                out@ == zero_cols(z as int),
            decreases lead - z,
        {
            out.push(0);
            z = z + 1;
            proof {
                assert(out@ =~= zero_cols(z as int));
            }
        }

        // the interior scan
        let ghost target = zero_cols(lead as int) + scan_gaps(
            q.subrange(lead as int, end as int),
            g,
            0,
        );
        let mut i: usize = lead;
        let mut run: usize = 0;
        while i < end
            invariant
                lead <= i <= end,
                end <= total,
                total == q.len(),
                expanded@ == q,
                run <= i,
                g == min_gap_size as int,
                out@ + scan_gaps(q.subrange(i as int, end as int), g, run as int) == target,
            decreases end - i,
        {
            let col = expanded[i];
            let ghost rest = q.subrange(i as int, end as int);
            let ghost old_run = run as int;
            let ghost prev = out@;
            proof {
                assert(rest[0] == q[i as int]);
                assert(rest.drop_first() =~= q.subrange(i as int + 1, end as int));
            }
            if col != 0 {
                out.push(col);
                run = 0;
                proof {
                    assert(scan_gaps(rest, g, old_run) == seq![col] + scan_gaps(
                        rest.drop_first(),
                        g,
                        0,
                    ));
                    assert((prev + seq![col]) + scan_gaps(rest.drop_first(), g, 0) =~= prev + (seq![
                        col,
                    ] + scan_gaps(rest.drop_first(), g, 0)));
                }
            } else {
                run = run + 1;
                if run <= min_gap_size {
                    out.push(0);
                    proof {
                        assert(scan_gaps(rest, g, old_run) == seq![0u8] + scan_gaps(
                            rest.drop_first(),
                            g,
                            old_run + 1,
                        ));
                        assert((prev + seq![0u8]) + scan_gaps(rest.drop_first(), g, old_run + 1)
                            =~= prev + (seq![0u8] + scan_gaps(rest.drop_first(), g, old_run + 1)));
                    }
                } else {
                    proof {
                        assert(scan_gaps(rest, g, old_run) == scan_gaps(
                            rest.drop_first(),
                            g,
                            old_run + 1,
                        ));
                    }
                }
            }
            i = i + 1;
        }
        proof {
            assert(q.subrange(end as int, end as int) =~= Seq::<u8>::empty());
            assert(scan_gaps(Seq::<u8>::empty(), g, run as int) == Seq::<u8>::empty());
            assert(out@ + Seq::<u8>::empty() =~= out@);
            assert(out@ == target);
        }

        // the trailing run, verbatim
        let ghost before_tail = out@;
        proof {
            assert(out@ =~= before_tail + zero_cols(0));
        }
        let mut z2: usize = 0;
        while z2 < trail
            invariant
                z2 <= trail,
                out@ == before_tail + zero_cols(z2 as int),
            decreases trail - z2,
        {
            out.push(0);
            z2 = z2 + 1;
            proof {
                assert(out@ =~= before_tail + zero_cols(z2 as int));
            }
        }
        proof {
            assert(out@ == compact_cols_unpadded(s, g));
        }
    }
    assert(out@ == compact_cols_unpadded(s, g));

    // zero-pad at the end to a multiple of eight columns
    let ghost u = out@;
    let rem = out.len() % 8;
    if rem != 0 {
        let pad = 8 - rem;
        proof {
            assert(pad as int == pad_len(u.len() as int));
            assert(out@ =~= u + zero_cols(0));
        }
        let mut z3: usize = 0;
        while z3 < pad
            invariant
                z3 <= pad,
                out@ == u + zero_cols(z3 as int),
            decreases pad - z3,
        {
            out.push(0);
            z3 = z3 + 1;
            proof {
                assert(out@ =~= u + zero_cols(z3 as int));
            }
        }
    } else {
        proof {
            assert(pad_len(u.len() as int) == 0);
            assert(out@ =~= u + zero_cols(0));
        }
    }
    assert(out@ == compact_cols(s, g));

    // fold the column stream back into 8x8 bitmaps
    proof {
        lemma_compacted_cols_multiple_of_eight(s, g);
        lemma_fundamental_div_mod(out@.len() as int, 8);
    }
    let n_out = out.len() / 8;
    assert(8 * n_out == out@.len());
    let mut compacted: Vec<SingleDisplayData> = Vec::new();
    let mut k: usize = 0;
    while k < n_out
        invariant
            k <= n_out,
            out@ == compact_cols(s, g),
            8 * n_out == out@.len(),
            out@.len() <= usize::MAX,
            compacted@.len() == k,
            forall|kk: int|
                0 <= kk < k ==> compacted@[kk]@ == transpose_spec(
                    out@.subrange(8 * kk, 8 * kk + 8),
                ),
        decreases n_out - k,
    {
        let mut chunk: SingleDisplayData = [0u8, 0, 0, 0, 0, 0, 0, 0];
        let mut r: usize = 0;
        while r < 8
            invariant
                r <= 8,
                k < n_out,
                out@ == compact_cols(s, g),
                8 * n_out == out@.len(),
                out@.len() <= usize::MAX,
                forall|j: int| 0 <= j < r ==> chunk@[j] == out@[8 * (k as int) + j],
            decreases 8 - r,
        {
            chunk[r] = out[8 * k + r];
            r = r + 1;
        }
        proof {
            assert(chunk@ =~= out@.subrange(8 * (k as int), 8 * (k as int) + 8));
        }
        compacted.push(transpose_single_display_data(&chunk));
        k = k + 1;
    }
    proof {
        assert(compacted@.len() == compact_spec(s, g).len());
        assert forall|kk: int| 0 <= kk < compacted@.len() implies compacted@[kk]@ == compact_spec(
            s,
            g,
        )[kk] by {
            assert(compacted@[kk]@ == transpose_spec(out@.subrange(8 * kk, 8 * kk + 8)));
        }
    }
    compacted
}

/// The pure half of starting a scrolling run: encode the text and, when
/// a maximum gap width is given, cap the blank runs between the glyphs.
/// The scrolling loop that drives the hardware only writes and shifts
/// what this returns.
pub fn prepare_text(text: &str, gap_width: Option<usize>) -> (data: Vec<SingleDisplayData>)
    ensures
        match gap_width {
            Option::None => data@ == encode_spec(text@),
            Option::Some(gw) => data@.len() == compact_spec(encode_spec(text@), gw as int).len()
                && forall|k: int|
                0 <= k < data@.len() ==> data@[k]@ == compact_spec(
                    encode_spec(text@),
                    gw as int,
                )[k],
        },
{
    let raw = encode_string(text);
    match gap_width {
        Option::Some(gw) => remove_gaps_in_display_text(&raw, gw),
        Option::None => raw,
    }
}

} // verus!
