//! The model that gives content features: how its audio is prepared.

use crate::float_bits::F32;
use vstd::prelude::*;

verus! {

/// The samples of a second of the audio that the model takes.
pub const HUBERT_RATE: u32 = 16000;

/// The silence behind the audio, in samples: three fifths of a second.
pub const TAIL_SILENCE: usize = 9600;

/// The audio with the silence behind it.
pub fn with_tail_silence(samples: Vec<F32>) -> (r: Vec<F32>)
    ensures
        r@ == samples@ + Seq::new(TAIL_SILENCE as nat, |i: int| (F32 { bits: 0 })),
{
    let ghost before = samples@;
    let mut r = samples;
    for i in 0..TAIL_SILENCE
        invariant
            r@ == before + Seq::new(i as nat, |i: int| (F32 { bits: 0 })),
    {
        r.push(F32::from_bits(0));
        assert(r@ =~= before + Seq::new((i + 1) as nat, |i: int| (F32 { bits: 0 })));
    }
    r
}

/// How the samples of a file are read.
#[derive(Debug, Clone, Copy, PartialEq, Eq, Structural)]
pub enum SampleKind {
    Float,
    Int32,
    Int16,
}

/// How the samples of a file are read: whole numbers of 32 bits as these, all others as 16 bits.
pub fn sample_kind(is_float: bool, bits: u16) -> (r: SampleKind)
    ensures
        r == if is_float {
            SampleKind::Float
        } else if bits == 32 {
            SampleKind::Int32
        } else {
            SampleKind::Int16
        },
{
    if is_float {
        SampleKind::Float
    } else if bits == 32 {
        SampleKind::Int32
    } else {
        SampleKind::Int16
    }
}

} // verus!
