//! Reference audio: how its samples are scaled and which part of its spectrum is used.

use vstd::prelude::*;

verus! {

/// The length of a window of the spectrum, in samples.
pub const N_FFT: usize = 2048;

/// The distance of two windows, in samples.
pub const HOP_LENGTH: usize = 640;

/// How many of the bands are used, from the lowest.
pub const USED_BANDS: usize = 704;

/// How many bands a spectrum has.
pub const ALL_BANDS: usize = 1025;

/// The number that whole samples of some bits are divided by.
pub fn sample_scale(bits: u16) -> (r: u32)
    ensures
        r == if bits == 8 {
            127u32
        } else if bits == 24 {
            8_388_608u32
        } else {
            32_767u32
        },
{
    if bits == 8 {
        127
    } else if bits == 24 {
        8_388_608
    } else {
        32_767
    }
}

/// Whether audio has to be resampled for a model.
pub fn needs_resampling(sample_rate: u32, wanted: u32) -> (r: bool)
    ensures
        r == (sample_rate != wanted),
{
    sample_rate != wanted
}

} // verus!
