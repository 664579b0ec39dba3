//! The encoder that makes a speaker embedding of a spectrogram: which tensors it is made of.

use crate::models::weights::{
    affine_of, load_affine, same_outcome, under, Affine, Weights, WeightsView,
};
use vstd::prelude::*;

verus! {

/// How many heads the attention over time has.
pub const STYLE_HEADS: usize = 2;

/// A gated convolution.
#[derive(Debug, Clone, Copy, PartialEq, Eq, Structural)]
pub struct GatedConv {
    pub conv: Affine,
    pub kernel_size: usize,
    pub padding: usize,
}

/// The gated convolution under a prefix. A weight without a third dimension, or without a width,
/// is refused like a missing one.
pub open spec fn gated_conv_of(w: WeightsView, prefix: Seq<char>) -> Result<GatedConv, Seq<char>> {
    match affine_of(w, prefix + ".conv1.conv"@) {
        Err(e) => Err(e),
        Ok(conv) => match w.dimension(conv.weight, 2) {
            Some(kernel_size) => if kernel_size == 0 {
                Err(prefix + ".conv1.conv"@)
            } else {
                Ok(GatedConv { conv, kernel_size, padding: ((kernel_size - 1) / 2) as usize })
            },
            None => Err(prefix + ".conv1.conv"@),
        },
    }
}

/// The gated convolution under a prefix.
fn load_gated_conv(w: &Weights, prefix: &str) -> (r: Result<GatedConv, String>)
    ensures
        same_outcome(r, gated_conv_of(w@, prefix@)),
{
    let conv = match load_affine(w, under(prefix, ".conv1.conv").as_str()) {
        Ok(a) => a,
        Err(e) => return Err(e),
    };
    match w.dim(conv.weight, 2) {
        Some(kernel_size) => if kernel_size == 0 {
            Err(under(prefix, ".conv1.conv"))
        } else {
            Ok(GatedConv { conv, kernel_size, padding: (kernel_size - 1) / 2 })
        },
        None => Err(under(prefix, ".conv1.conv")),
    }
}

/// An attention over time.
#[derive(Debug, Clone, Copy, PartialEq, Eq, Structural)]
pub struct StyleAttention {
    pub w_q: usize,
    pub w_k: usize,
    pub w_v: usize,
    pub fc: Affine,
    pub n_heads: usize,
    pub head_dim: usize,
}

/// The attention under a prefix. A first weight without dimensions is refused like a missing one.
pub open spec fn style_attention_of(w: WeightsView, prefix: Seq<char>) -> Result<
    StyleAttention,
    Seq<char>,
> {
    match w.need(prefix + ".w_qs.weight"@) {
        Err(e) => Err(e),
        Ok(w_q) => match w.need(prefix + ".w_ks.weight"@) {
            Err(e) => Err(e),
            Ok(w_k) => match w.need(prefix + ".w_vs.weight"@) {
                Err(e) => Err(e),
                Ok(w_v) => match affine_of(w, prefix + ".fc"@) {
                    Err(e) => Err(e),
                    Ok(fc) => match w.dimension(w_q, 0) {
                        Some(hidden) => Ok(
                            StyleAttention {
                                w_q,
                                w_k,
                                w_v,
                                fc,
                                n_heads: STYLE_HEADS,
                                head_dim: (hidden / STYLE_HEADS) as usize,
                            },
                        ),
                        None => Err(prefix + ".w_qs.weight"@),
                    },
                },
            },
        },
    }
}

/// The attention under a prefix.
fn load_style_attention(w: &Weights, prefix: &str) -> (r: Result<StyleAttention, String>)
    ensures
        same_outcome(r, style_attention_of(w@, prefix@)),
{
    let w_q = match w.get(under(prefix, ".w_qs.weight").as_str()) {
        Ok(place) => place,
        Err(e) => return Err(e),
    };
    let w_k = match w.get(under(prefix, ".w_ks.weight").as_str()) {
        Ok(place) => place,
        Err(e) => return Err(e),
    };
    let w_v = match w.get(under(prefix, ".w_vs.weight").as_str()) {
        Ok(place) => place,
        Err(e) => return Err(e),
    };
    let fc = match load_affine(w, under(prefix, ".fc").as_str()) {
        Ok(a) => a,
        Err(e) => return Err(e),
    };
    match w.dim(w_q, 0) {
        Some(hidden) => Ok(
            StyleAttention {
                w_q,
                w_k,
                w_v,
                fc,
                n_heads: STYLE_HEADS,
                head_dim: hidden / STYLE_HEADS,
            },
        ),
        None => Err(under(prefix, ".w_qs.weight")),
    }
}

/// The encoder that makes a speaker embedding.
#[derive(Debug, Clone, Copy, PartialEq, Eq, Structural)]
pub struct RefEnc {
    pub spectral_0: Affine,
    pub spectral_3: Affine,
    pub temporal_0: GatedConv,
    pub temporal_1: GatedConv,
    pub self_attn: StyleAttention,
    pub fc: Affine,
}

/// The encoder of a model file.
pub open spec fn ref_enc_of(w: WeightsView) -> Result<RefEnc, Seq<char>> {
    match affine_of(w, "ref_enc.spectral.0.fc"@) {
        Err(e) => Err(e),
        Ok(spectral_0) => match affine_of(w, "ref_enc.spectral.3.fc"@) {
            Err(e) => Err(e),
            Ok(spectral_3) => match gated_conv_of(w, "ref_enc.temporal.0"@) {
                Err(e) => Err(e),
                Ok(temporal_0) => match gated_conv_of(w, "ref_enc.temporal.1"@) {
                    Err(e) => Err(e),
                    Ok(temporal_1) => match style_attention_of(w, "ref_enc.slf_attn"@) {
                        Err(e) => Err(e),
                        Ok(self_attn) => match affine_of(w, "ref_enc.fc.fc"@) {
                            Err(e) => Err(e),
                            Ok(fc) => Ok(
                                RefEnc {
                                    spectral_0,
                                    spectral_3,
                                    temporal_0,
                                    temporal_1,
                                    self_attn,
                                    fc,
                                },
                            ),
                        },
                    },
                },
            },
        },
    }
}

impl RefEnc {
    /// The encoder of a model file, or the first name that is missing.
    pub fn load(w: &Weights) -> (r: Result<Self, String>)
        ensures
            same_outcome(r, ref_enc_of(w@)),
    {
        let spectral_0 = match load_affine(w, "ref_enc.spectral.0.fc") {
            Ok(a) => a,
            Err(e) => return Err(e),
        };
        let spectral_3 = match load_affine(w, "ref_enc.spectral.3.fc") {
            Ok(a) => a,
            Err(e) => return Err(e),
        };
        let temporal_0 = match load_gated_conv(w, "ref_enc.temporal.0") {
            Ok(c) => c,
            Err(e) => return Err(e),
        };
        let temporal_1 = match load_gated_conv(w, "ref_enc.temporal.1") {
            Ok(c) => c,
            Err(e) => return Err(e),
        };
        let self_attn = match load_style_attention(w, "ref_enc.slf_attn") {
            Ok(a) => a,
            Err(e) => return Err(e),
        };
        match load_affine(w, "ref_enc.fc.fc") {
            Ok(fc) => Ok(
                RefEnc { spectral_0, spectral_3, temporal_0, temporal_1, self_attn, fc },
            ),
            Err(e) => Err(e),
        }
    }
}

} // verus!
