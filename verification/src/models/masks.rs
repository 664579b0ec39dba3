//! Masks and the alignment of feature frames with phonemes.

use crate::float_bits::F32;
use crate::models::grid::{grid, grid_prefix, grid_value, lemma_push, lemma_row_end};
use vstd::prelude::*;

verus! {

/// The bit pattern of the number one.
pub const ONE_BITS: u32 = 0x3F80_0000;

/// The number one where a condition holds, else zero.
pub open spec fn flag(on: bool) -> F32 {
    if on {
        F32 { bits: ONE_BITS }
    } else {
        F32 { bits: 0 }
    }
}

/// The number one where a condition holds, else zero.
fn flag_of(on: bool) -> (r: F32)
    ensures
        r == flag(on),
{
    if on {
        F32::from_bits(ONE_BITS)
    } else {
        F32::from_bits(0)
    }
}

/// A matrix of flags, row by row.
pub open spec fn flags(rows: nat, columns: nat, on: spec_fn(int, int) -> bool) -> Seq<F32> {
    grid(rows, columns, |i: int, j: int| flag(on(i, j)))
}

/// Whether a place sees another where no place sees what is behind it.
pub open spec fn causal(i: int, j: int) -> bool {
    i >= j
}

/// The mask of places of which none sees what is behind it: one where a place is seen.
pub fn create_causal_mask(seq_len: usize) -> (r: Vec<F32>)
    ensures
        r@ == flags(seq_len as nat, seq_len as nat, |i: int, j: int| causal(i, j)),
{
    let ghost f = |i: int, j: int| flag(causal(i, j));
    let ghost n = seq_len as nat;
    let mut r: Vec<F32> = Vec::new();
    proof {
        lemma_row_end(n, 0);
    }
    for i in 0..seq_len
        invariant
            n == seq_len,
            f == (|i: int, j: int| flag(causal(i, j))),
            r@ == grid_prefix(i as nat * n, n, f),
    {
        proof {
            lemma_row_end(n, i as nat);
        }
        for j in 0..seq_len
            invariant
                n == seq_len,
                f == (|i: int, j: int| flag(causal(i, j))),
                r@ == grid_prefix(i as nat * n + j as nat, n, f),
        {
            proof {
                lemma_push(r@, n, i as nat, j as nat, f);
            }
            r.push(flag_of(i >= j));
        }
    }
    r
}

/// Whether a place may not see another where text comes before audio: text does not see audio,
/// and audio does not see what is behind it.
pub open spec fn hybrid_blocked(text: int, i: int, j: int) -> bool {
    j >= text && (i < text || j > i)
}

/// The mask of a text of `text_seq` places before audio: one where a place may not be seen.
pub fn create_hybrid_mask(text_seq: usize, total_seq: usize) -> (r: Vec<F32>)
    ensures
        r@ == flags(
            total_seq as nat,
            total_seq as nat,
            |i: int, j: int| hybrid_blocked(text_seq as int, i, j),
        ),
{
    let ghost f = |i: int, j: int| flag(hybrid_blocked(text_seq as int, i, j));
    let ghost n = total_seq as nat;
    let mut r: Vec<F32> = Vec::new();
    proof {
        lemma_row_end(n, 0);
    }
    for i in 0..total_seq
        invariant
            n == total_seq,
            f == (|i: int, j: int| flag(hybrid_blocked(text_seq as int, i, j))),
            r@ == grid_prefix(i as nat * n, n, f),
    {
        proof {
            lemma_row_end(n, i as nat);
        }
        for j in 0..total_seq
            invariant
                n == total_seq,
                f == (|i: int, j: int| flag(hybrid_blocked(text_seq as int, i, j))),
                r@ == grid_prefix(i as nat * n + j as nat, n, f),
        {
            proof {
                lemma_push(r@, n, i as nat, j as nat, f);
            }
            r.push(flag_of(j >= text_seq && (i < text_seq || j > i)));
        }
    }
    r
}

/// Audio sees all text and all audio up to itself; text sees all text and no audio.
pub proof fn hybrid_mask_parts(text: int, i: int, j: int)
    requires
        0 <= text,
        0 <= i,
        0 <= j,
    ensures
        j < text ==> !hybrid_blocked(text, i, j),
        i < text && j >= text ==> hybrid_blocked(text, i, j),
        i >= text && j >= text ==> (hybrid_blocked(text, i, j) <==> !causal(i, j)),
{
}

/// The mask of sequences of given lengths: one at each place below its length.
pub fn sequence_mask(lengths: &Vec<i64>, max_len: usize) -> (r: Vec<F32>)
    ensures
        r@ == flags(lengths@.len(), max_len as nat, |b: int, t: int| t < lengths@[b]),
{
    let ghost f = |b: int, t: int| flag(t < lengths@[b]);
    let ghost n = max_len as nat;
    let mut r: Vec<F32> = Vec::new();
    proof {
        lemma_row_end(n, 0);
    }
    for b in 0..lengths.len()
        invariant
            n == max_len,
            f == (|b: int, t: int| flag(t < lengths@[b])),
            r@ == grid_prefix(b as nat * n, n, f),
    {
        proof {
            lemma_row_end(n, b as nat);
        }
        for t in 0..max_len
            invariant
                n == max_len,
                b < lengths@.len(),
                f == (|b: int, t: int| flag(t < lengths@[b])),
                r@ == grid_prefix(b as nat * n + t as nat, n, f),
        {
            proof {
                lemma_push(r@, n, b as nat, t as nat, f);
            }
            r.push(flag_of((t as i128) < lengths[b] as i128));
        }
    }
    r
}

/// The mask of a cache of fixed size for each head: one where a place is not filled yet.
pub fn cache_mask(heads: usize, size: usize, filled: usize) -> (r: Vec<F32>)
    ensures
        r@ == flags(heads as nat, size as nat, |h: int, p: int| p >= filled),
{
    let ghost f = |h: int, p: int| flag(p >= filled);
    let ghost n = size as nat;
    let mut r: Vec<F32> = Vec::new();
    proof {
        lemma_row_end(n, 0);
    }
    for h in 0..heads
        invariant
            n == size,
            f == (|h: int, p: int| flag(p >= filled)),
            r@ == grid_prefix(h as nat * n, n, f),
    {
        proof {
            lemma_row_end(n, h as nat);
        }
        for p in 0..size
            invariant
                n == size,
                f == (|h: int, p: int| flag(p >= filled)),
                r@ == grid_prefix(h as nat * n + p as nat, n, f),
        {
            proof {
                lemma_push(r@, n, h as nat, p as nat, f);
            }
            r.push(flag_of(p >= filled));
        }
    }
    r
}

/// The sum of counts.
pub open spec fn total(counts: Seq<usize>) -> nat
    decreases counts.len(),
{
    if counts.len() == 0 {
        0
    } else {
        total(counts.drop_last()) + counts.last() as nat
    }
}

/// Each place as often as its count says.
pub open spec fn repeated(counts: Seq<usize>) -> Seq<usize>
    decreases counts.len(),
{
    if counts.len() == 0 {
        Seq::empty()
    } else {
        repeated(counts.drop_last()) + Seq::new(
            counts.last() as nat,
            |i: int| (counts.len() - 1) as usize,
        )
    }
}

proof fn lemma_repeated_len(counts: Seq<usize>)
    ensures
        repeated(counts).len() == total(counts),
    decreases counts.len(),
{
    if counts.len() > 0 {
        lemma_repeated_len(counts.drop_last());
    }
}

/// The place that is nearest, from `len` places to `target` ones.
pub open spec fn nearest(i: int, len: int, target: int) -> int {
    i * len / target
}

/// The frames that phonemes take, of those between the first and the last: by the counts of
/// phonemes where they fit, else the first frames, or the nearest ones where there are too few.
pub open spec fn aligned(len: nat, target: nat, counts: Seq<usize>) -> Seq<usize> {
    if counts.len() == len && counts.len() > 0 && total(counts) == target {
        repeated(counts)
    } else if len >= target {
        Seq::new(target, |i: int| i as usize)
    } else {
        Seq::new(target, |i: int| nearest(i, len as int, target as int) as usize)
    }
}

proof fn lemma_nearest(i: int, len: int, target: int)
    requires
        0 <= i < target,
        0 < len < target,
    ensures
        0 <= nearest(i, len, target) < len,
{
    assert(0 <= i * len / target < len) by (nonlinear_arith)
        requires
            0 <= i < target,
            0 < len < target,
    ;
}

proof fn lemma_repeated_in_range(counts: Seq<usize>)
    requires
        counts.len() <= usize::MAX,
    ensures
        forall|i: int| 0 <= i < repeated(counts).len() ==> (#[trigger] repeated(counts)[i]) < counts.len(),
    decreases counts.len(),
{
    if counts.len() > 0 {
        lemma_repeated_in_range(counts.drop_last());
        let before = repeated(counts.drop_last());
        assert forall|i: int| 0 <= i < repeated(counts).len() implies (#[trigger] repeated(counts)[i])
            < counts.len() by {
            if i < before.len() {
                assert(repeated(counts)[i] == before[i]);
            }
        }
    }
}

/// An alignment has a frame for each phoneme, and each is one of the frames.
pub proof fn alignment_covers_phonemes(len: nat, target: nat, counts: Seq<usize>)
    requires
        0 < len <= usize::MAX,
        target <= usize::MAX,
    ensures
        aligned(len, target, counts).len() == target,
        forall|i: int|
            0 <= i < target ==> (#[trigger] aligned(len, target, counts)[i]) < len,
{
    if counts.len() == len && counts.len() > 0 && total(counts) == target {
        lemma_repeated_len(counts);
        lemma_repeated_in_range(counts);
    } else if len < target {
        assert forall|i: int| 0 <= i < target implies (#[trigger] aligned(len, target, counts)[i])
            < len by {
            lemma_nearest(i, len as int, target as int);
        }
    }
}

/// The sum of counts, where it is a given number.
fn sums_to(counts: &Vec<usize>, target: usize) -> (r: bool)
    ensures
        r == (total(counts@) == target),
{
    let mut sum: usize = 0;
    for i in 0..counts.len()
        invariant
            sum == total(counts@.take(i as int)),
            sum <= target,
    {
        assert(counts@.take(i + 1).drop_last() =~= counts@.take(i as int));
        if counts[i] > target - sum {
            proof {
                lemma_total_grows(counts@, i + 1);
            }
            return false;
        }
        sum = sum + counts[i];
    }
    assert(counts@.take(counts@.len() as int) =~= counts@);
    sum == target
}

proof fn lemma_total_grows(counts: Seq<usize>, n: int)
    requires
        0 <= n <= counts.len(),
    ensures
        total(counts.take(n)) <= total(counts),
    decreases counts.len() - n,
{
    if n < counts.len() {
        lemma_total_grows(counts, n + 1);
        assert(counts.take(n + 1).drop_last() =~= counts.take(n));
    } else {
        assert(counts.take(n) =~= counts);
    }
}

/// The frames of features that phonemes take, by their places among all frames; nothing where
/// there is no frame between the first and the last. Of one frame, or none, no frame is left out.
pub fn align_bert_to_phonemes(frames: usize, target: usize, counts: &Vec<usize>) -> (r: Option<
    Vec<usize>,
>)
    ensures
        ({
            let len: nat = if frames >= 2 {
                (frames - 2) as nat
            } else {
                frames as nat
            };
            let first: int = if frames >= 2 {
                1
            } else {
                0
            };
            match r {
                Some(places) => len > 0 && places@ == aligned(len, target as nat, counts@).map_values(
                    |p: usize| (p + first) as usize,
                ),
                None => len == 0,
            }
        }),
{
    let (len, first): (usize, usize) = if frames >= 2 {
        (frames - 2, 1)
    } else {
        (frames, 0)
    };
    if len == 0 {
        return None;
    }
    let ghost plan = aligned(len as nat, target as nat, counts@);
    let ghost shifted = plan.map_values(|p: usize| (p + first) as usize);
    proof {
        alignment_covers_phonemes(len as nat, target as nat, counts@);
    }
    let mut r: Vec<usize> = Vec::new();
    if counts.len() > 0 && counts.len() == len && sums_to(counts, target) {
        let n: usize = counts.len();
        for i in 0..n
            invariant
                n == counts@.len(),
                n == len,
                len + first <= usize::MAX,
                plan == repeated(counts@),
                r@ == repeated(counts@.take(i as int)).map_values(|p: usize| (p + first) as usize),
        {
            let ghost before = repeated(counts@.take(i as int));
            let ghost base = r@;
            assert(counts@.take(i + 1).drop_last() =~= counts@.take(i as int));
            let count: usize = counts[i];
            for k in 0..count
                invariant
                    i < n,
                    n == len,
                    len + first <= usize::MAX,
                    r@ == base + Seq::new(k as nat, |x: int| (i + first) as usize),
            {
                let ghost was = r@;
                r.push(i + first);
                assert(r@ =~= base + Seq::new((k + 1) as nat, |x: int| (i + first) as usize));
            }
            assert(r@ =~= repeated(counts@.take(i + 1)).map_values(
                |p: usize| (p + first) as usize,
            ));
        }
        assert(counts@.take(n as int) =~= counts@);
        return Some(r);
    }
    for i in 0..target
        invariant
            0 < len,
            len + first <= usize::MAX,
            plan.len() == target,
            shifted == plan.map_values(|p: usize| (p + first) as usize),
            plan == if len >= target {
                Seq::new(target as nat, |i: int| i as usize)
            } else {
                Seq::new(target as nat, |i: int| nearest(i, len as int, target as int) as usize)
            },
            r@ == shifted.take(i as int),
    {
        let place: usize = if len >= target {
            i
        } else {
            proof {
                lemma_nearest(i as int, len as int, target as int);
                assert(i * len <= usize::MAX * usize::MAX) by (nonlinear_arith)
                    requires
                        i <= usize::MAX,
                        len <= usize::MAX,
                ;
                assert(usize::MAX * usize::MAX <= u128::MAX) by (nonlinear_arith)
                    requires
                        usize::MAX <= 0xFFFF_FFFF_FFFF_FFFF,
                ;
            }
            (i as u128 * len as u128 / target as u128) as usize
        };
        assert(plan[i as int] == place);
        r.push(place + first);
        assert(shifted.take(i + 1) =~= shifted.take(i as int).push(shifted[i as int]));
    }
    assert(shifted.take(target as int) =~= shifted);
    Some(r)
}

/// The frames of a sequence that stand beside `target` places: the first ones, and the last one
/// again where there are too few.
pub fn stretch_frames(frames: usize, target: usize) -> (r: Vec<usize>)
    requires
        frames > 0,
    ensures
        r@ == Seq::new(
            target as nat,
            |i: int|
                if i < frames {
                    i as usize
                } else {
                    (frames - 1) as usize
                },
        ),
{
    let mut r: Vec<usize> = Vec::new();
    for i in 0..target
        invariant
            frames > 0,
            r@ == Seq::new(
                i as nat,
                |i: int|
                    if i < frames {
                        i as usize
                    } else {
                        (frames - 1) as usize
                    },
            ),
    {
        let ghost was = r@;
        r.push(
            if i < frames {
                i
            } else {
                frames - 1
            },
        );
        assert(r@ =~= Seq::new(
            (i + 1) as nat,
            |i: int|
                if i < frames {
                    i as usize
                } else {
                    (frames - 1) as usize
                },
        ));
    }
    r
}

/// A mask holds a flag for each row and column: the number one where it is on, else zero.
pub proof fn masks_hold_their_flags(
    rows: nat,
    columns: nat,
    on: spec_fn(int, int) -> bool,
    i: int,
    j: int,
)
    requires
        0 <= i < rows,
        0 <= j < columns,
    ensures
        flags(rows, columns, on).len() == rows * columns,
        0 <= i * columns + j < rows * columns,
        flags(rows, columns, on)[i * columns + j].bits == if on(i, j) {
            0x3F80_0000u32
        } else {
            0u32
        },
{
    grid_value(rows, columns, |i: int, j: int| flag(on(i, j)), i, j);
}

/// Each place is repeated as often as its count says, behind all repetitions of those before it.
pub proof fn places_are_repeated_in_order(counts: Seq<usize>, j: int, m: int)
    requires
        counts.len() <= usize::MAX,
        0 <= j < counts.len(),
        0 <= m < counts[j],
    ensures
        repeated(counts).len() == total(counts),
        total(counts.take(j)) + m < repeated(counts).len(),
        repeated(counts)[total(counts.take(j)) + m] == j,
    decreases counts.len(),
{
    let before = counts.drop_last();
    lemma_repeated_len(counts);
    lemma_repeated_len(before);
    if j == counts.len() - 1 {
        assert(counts.take(j) =~= before);
    } else {
        places_are_repeated_in_order(before, j, m);
        assert(before.take(j) =~= counts.take(j));
        assert(before[j] == counts[j]);
    }
}

/// Counts add up part by part.
pub proof fn totals_add_up(a: Seq<usize>, n: usize)
    ensures
        total(a.push(n)) == total(a) + n,
        total(Seq::empty()) == 0,
{
    assert(a.push(n).drop_last() =~= a);
}

/// Where frames are too few, a phoneme takes the frame that lies as far along as it does itself,
/// so that the frames keep their order.
pub proof fn nearest_frames_keep_their_order(i: int, len: int, target: int)
    requires
        0 <= i < target,
        0 < len,
    ensures
        nearest(i, len, target) * target <= i * len,
        i * len < (nearest(i, len, target) + 1) * target,
        nearest(i, len, target) <= nearest(i + 1, len, target),
        nearest(0, len, target) == 0,
{
    let n = nearest(i, len, target);
    assert(n * target <= i * len && i * len < (n + 1) * target) by (nonlinear_arith)
        requires
            n == i * len / target,
            target > 0,
    ;
    let next = nearest(i + 1, len, target);
    assert(n <= next) by (nonlinear_arith)
        requires
            n == i * len / target,
            next == (i + 1) * len / target,
            n * target <= i * len,
            target > 0,
            len > 0,
    ;
    assert(0 * len / target == 0) by (nonlinear_arith)
        requires
            target > 0,
    ;
}

/// Phonemes take frames by their counts where these fit, one frame each in turn where there are
/// enough, and the nearest frames where there are too few.
pub proof fn phonemes_take_their_frames(len: nat, target: nat, counts: Seq<usize>, i: int)
    requires
        0 < len <= usize::MAX,
        target <= usize::MAX,
        0 <= i < target,
    ensures
        counts.len() == len && total(counts) == target ==> aligned(len, target, counts)
            == repeated(counts),
        !(counts.len() == len && total(counts) == target) && len >= target ==> aligned(
            len,
            target,
            counts,
        )[i] == i,
        !(counts.len() == len && total(counts) == target) && len < target ==> aligned(
            len,
            target,
            counts,
        )[i] * target <= i * len < (aligned(len, target, counts)[i] + 1) * target,
{
    if !(counts.len() == len && total(counts) == target) && len < target {
        lemma_nearest(i, len as int, target as int);
        nearest_frames_keep_their_order(i, len as int, target as int);
    }
}

} // verus!
