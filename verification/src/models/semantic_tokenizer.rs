//! The tokenizer of content features: which tensors it is made of, and how it steps.

use crate::float_bits::{is_nan, less, rank, F32};
use crate::models::weights::{
    affine_of, load_affine, same_outcome, Affine, Weights, WeightsView,
};
use vstd::prelude::*;

verus! {

/// The tokenizer by the places of its tensors.
#[derive(Debug, Clone, Copy, PartialEq, Eq, Structural)]
pub struct SemanticTokenizer {
    pub ssl_conv: Affine,
    pub codebook: usize,
    pub stride: usize,
}

/// The step of the convolution: two frames where its weight has three dimensions and is two wide,
/// else one.
pub open spec fn stride_of(shape: Seq<usize>) -> usize {
    if shape.len() == 3 && shape[2] == 2 {
        2
    } else {
        1
    }
}

/// The tokenizer of a model file.
pub open spec fn tokenizer_of(w: WeightsView) -> Result<SemanticTokenizer, Seq<char>> {
    match affine_of(w, "ssl_proj"@) {
        Err(e) => Err(e),
        Ok(ssl_conv) => match w.need("quantizer.vq.layers.0._codebook.embed"@) {
            Err(e) => Err(e),
            Ok(codebook) => Ok(
                SemanticTokenizer {
                    ssl_conv,
                    codebook,
                    stride: stride_of(w.shapes[ssl_conv.weight as int]),
                },
            ),
        },
    }
}

impl SemanticTokenizer {
    /// The tokenizer of a model file, or the first name that is missing.
    pub fn load(w: &Weights) -> (r: Result<Self, String>)
        ensures
            same_outcome(r, tokenizer_of(w@)),
    {
        let ssl_conv = match load_affine(w, "ssl_proj") {
            Ok(a) => a,
            Err(e) => return Err(e),
        };
        let codebook = match w.get("quantizer.vq.layers.0._codebook.embed") {
            Ok(place) => place,
            Err(e) => return Err(e),
        };
        let third = w.dim(ssl_conv.weight, 2);
        let fourth = w.dim(ssl_conv.weight, 3);
        let stride: usize = match (third, fourth) {
            (Some(2), None) => 2,
            _ => 1,
        };
        Ok(SemanticTokenizer { ssl_conv, codebook, stride })
    }
}

/// The place of the least value: the first one of equals, and 0 where there is none.
pub open spec fn argmin_of(s: Seq<F32>) -> int
    decreases s.len(),
{
    if s.len() <= 1 {
        0
    } else {
        let best = argmin_of(s.drop_last());
        if less(s.last(), s[best]) {
            s.len() - 1
        } else {
            best
        }
    }
}

/// The place of the least value of each row.
pub fn argmin_2d(distances: &Vec<F32>, rows: usize, columns: usize) -> (r: Vec<usize>)
    requires
        columns >= 1,
        rows * columns == distances@.len(),
    ensures
        r@.len() == rows,
        forall|i: int|
            0 <= i < rows ==> #[trigger] r@[i] == argmin_of(
                distances@.subrange(i * columns, i * columns + columns),
            ),
{
    let mut r: Vec<usize> = Vec::new();
    let mut start: usize = 0;
    let total: usize = distances.len();
    assert(0 * columns == 0) by (nonlinear_arith);
    for i in 0..rows
        invariant
            columns >= 1,
            total == distances@.len(),
            rows * columns == total,
            start == i * columns,
            r@.len() == i,
            forall|k: int|
                0 <= k < i ==> #[trigger] r@[k] == argmin_of(
                    distances@.subrange(k * columns, k * columns + columns),
                ),
    {
        assert(i * columns + columns == (i + 1) * columns) by (nonlinear_arith);
        assert((i + 1) * columns <= rows * columns) by (nonlinear_arith)
            requires
                i + 1 <= rows,
                0 <= columns,
        ;
        let ghost row = distances@.subrange(start as int, start + columns);
        let mut best: usize = 0;
        for j in 1..columns
            invariant
                columns >= 1,
                total == distances@.len(),
                start + columns <= total,
                row == distances@.subrange(start as int, start + columns),
                best < j,
                best == argmin_of(row.take(j as int)),
        {
            assert(row.take(j + 1).drop_last() =~= row.take(j as int));
            assert(row.take(j + 1).last() == distances@[start + j]);
            assert(row.take(j + 1)[best as int] == distances@[start + best]);
            if distances[start + j].lt(distances[start + best]) {
                best = j;
            }
        }
        assert(row.take(columns as int) =~= row);
        r.push(best);
        start = start + columns;
    }
    r
}

/// No value is less than the least one, and none before it is as small.
pub proof fn argmin_is_least(s: Seq<F32>)
    requires
        s.len() > 0,
        forall|i: int| 0 <= i < s.len() ==> !is_nan(#[trigger] s[i]),
    ensures
        0 <= argmin_of(s) < s.len(),
        forall|i: int| 0 <= i < s.len() ==> rank(s[argmin_of(s)]) <= rank(#[trigger] s[i]),
        forall|i: int| 0 <= i < argmin_of(s) ==> rank(s[argmin_of(s)]) < rank(#[trigger] s[i]),
    decreases s.len(),
{
    if s.len() > 1 {
        let rest = s.drop_last();
        assert forall|i: int| 0 <= i < rest.len() implies !is_nan(#[trigger] rest[i]) by {
            assert(rest[i] == s[i]);
        }
        argmin_is_least(rest);
        assert forall|i: int| 0 <= i < s.len() implies rank(s[argmin_of(s)]) <= rank(
            #[trigger] s[i],
        ) by {
            if i < rest.len() {
                assert(rest[i] == s[i]);
            }
        }
        assert forall|i: int| 0 <= i < argmin_of(s) implies rank(s[argmin_of(s)]) < rank(
            #[trigger] s[i],
        ) by {
            assert(rest[i] == s[i]);
        }
    }
}

} // verus!
