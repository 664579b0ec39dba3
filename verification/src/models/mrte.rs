//! The fusion of content and text in the token model: which tensors it is made of.

use crate::models::weights::{
    affine_of, load_affine, same_outcome, under, Affine, Weights, WeightsView,
};
use vstd::prelude::*;

verus! {

/// How many heads the attention has.
pub const FUSION_HEADS: usize = 4;

/// The attention of content to text.
#[derive(Debug, Clone, Copy, PartialEq, Eq, Structural)]
pub struct MultiHeadAttention {
    pub conv_q: Affine,
    pub conv_k: Affine,
    pub conv_v: Affine,
    pub conv_o: Affine,
    pub n_heads: usize,
    pub k_channels: usize,
    pub channels: usize,
    pub out_channels: usize,
}

/// The attention under a prefix. A first weight without dimensions is refused like a missing one.
pub open spec fn fusion_attention_of(w: WeightsView, prefix: Seq<char>) -> Result<
    MultiHeadAttention,
    Seq<char>,
> {
    match affine_of(w, prefix + ".conv_q"@) {
        Err(e) => Err(e),
        Ok(conv_q) => match affine_of(w, prefix + ".conv_k"@) {
            Err(e) => Err(e),
            Ok(conv_k) => match affine_of(w, prefix + ".conv_v"@) {
                Err(e) => Err(e),
                Ok(conv_v) => match affine_of(w, prefix + ".conv_o"@) {
                    Err(e) => Err(e),
                    Ok(conv_o) => match w.dimension(conv_q.weight, 0) {
                        Some(channels) => Ok(
                            MultiHeadAttention {
                                conv_q,
                                conv_k,
                                conv_v,
                                conv_o,
                                n_heads: FUSION_HEADS,
                                k_channels: (channels / FUSION_HEADS) as usize,
                                channels,
                                out_channels: channels,
                            },
                        ),
                        None => Err(prefix + ".conv_q"@),
                    },
                },
            },
        },
    }
}

/// The convolution of one step from and to given numbers of channels under a prefix, or the first
/// name that is missing or has another shape.
pub open spec fn pointwise_of(w: WeightsView, prefix: Seq<char>, from: usize, to: usize) -> Result<
    Affine,
    Seq<char>,
> {
    match w.need_shaped(prefix + ".weight"@, seq![to, from, 1]) {
        Err(e) => Err(e),
        Ok(weight) => match w.need_shaped(prefix + ".bias"@, seq![to]) {
            Err(e) => Err(e),
            Ok(bias) => Ok(Affine { weight, bias }),
        },
    }
}

/// The convolution of one step from and to given numbers of channels under a prefix.
fn load_pointwise(w: &Weights, prefix: &str, from: usize, to: usize) -> (r: Result<Affine, String>)
    ensures
        same_outcome(r, pointwise_of(w@, prefix@, from, to)),
{
    let shape: Vec<usize> = vec![to, from, 1];
    assert(shape@ =~= seq![to, from, 1]);
    let weight = match w.get_shaped(under(prefix, ".weight").as_str(), &shape) {
        Ok(place) => place,
        Err(e) => return Err(e),
    };
    let shape: Vec<usize> = vec![to];
    assert(shape@ =~= seq![to]);
    match w.get_shaped(under(prefix, ".bias").as_str(), &shape) {
        Ok(bias) => Ok(Affine { weight, bias }),
        Err(e) => Err(e),
    }
}

/// The attention of given sizes under a prefix, or the first name that is missing or has another
/// shape.
pub open spec fn sized_attention_of(
    w: WeightsView,
    prefix: Seq<char>,
    channels: usize,
    out_channels: usize,
    n_heads: usize,
) -> Result<MultiHeadAttention, Seq<char>> {
    match pointwise_of(w, prefix + ".conv_q"@, channels, channels) {
        Err(e) => Err(e),
        Ok(conv_q) => match pointwise_of(w, prefix + ".conv_k"@, channels, channels) {
            Err(e) => Err(e),
            Ok(conv_k) => match pointwise_of(w, prefix + ".conv_v"@, channels, channels) {
                Err(e) => Err(e),
                Ok(conv_v) => match pointwise_of(w, prefix + ".conv_o"@, channels, out_channels) {
                    Err(e) => Err(e),
                    Ok(conv_o) => Ok(
                        MultiHeadAttention {
                            conv_q,
                            conv_k,
                            conv_v,
                            conv_o,
                            n_heads,
                            k_channels: (channels / n_heads) as usize,
                            channels,
                            out_channels,
                        },
                    ),
                },
            },
        },
    }
}

impl MultiHeadAttention {
    /// The attention under a prefix, or the first name that is missing.
    pub fn load(w: &Weights, prefix: &str) -> (r: Result<Self, String>)
        ensures
            same_outcome(r, fusion_attention_of(w@, prefix@)),
    {
        let conv_q = match load_affine(w, under(prefix, ".conv_q").as_str()) {
            Ok(a) => a,
            Err(e) => return Err(e),
        };
        let conv_k = match load_affine(w, under(prefix, ".conv_k").as_str()) {
            Ok(a) => a,
            Err(e) => return Err(e),
        };
        let conv_v = match load_affine(w, under(prefix, ".conv_v").as_str()) {
            Ok(a) => a,
            Err(e) => return Err(e),
        };
        let conv_o = match load_affine(w, under(prefix, ".conv_o").as_str()) {
            Ok(a) => a,
            Err(e) => return Err(e),
        };
        match w.dim(conv_q.weight, 0) {
            Some(channels) => Ok(
                MultiHeadAttention {
                    conv_q,
                    conv_k,
                    conv_v,
                    conv_o,
                    n_heads: FUSION_HEADS,
                    k_channels: channels / FUSION_HEADS,
                    channels,
                    out_channels: channels,
                },
            ),
            None => Err(under(prefix, ".conv_q")),
        }
    }

    /// The attention of given sizes under a prefix, or the first name that is missing or has
    /// another shape.
    pub fn new(channels: usize, out_channels: usize, n_heads: usize, w: &Weights, prefix: &str) -> (r:
        Result<Self, String>)
        requires
            n_heads > 0,
            channels % n_heads == 0,
        ensures
            same_outcome(r, sized_attention_of(w@, prefix@, channels, out_channels, n_heads)),
    {
        let conv_q = match load_pointwise(w, under(prefix, ".conv_q").as_str(), channels, channels) {
            Ok(a) => a,
            Err(e) => return Err(e),
        };
        let conv_k = match load_pointwise(w, under(prefix, ".conv_k").as_str(), channels, channels) {
            Ok(a) => a,
            Err(e) => return Err(e),
        };
        let conv_v = match load_pointwise(w, under(prefix, ".conv_v").as_str(), channels, channels) {
            Ok(a) => a,
            Err(e) => return Err(e),
        };
        match load_pointwise(w, under(prefix, ".conv_o").as_str(), channels, out_channels) {
            Ok(conv_o) => Ok(
                MultiHeadAttention {
                    conv_q,
                    conv_k,
                    conv_v,
                    conv_o,
                    n_heads,
                    k_channels: channels / n_heads,
                    channels,
                    out_channels,
                },
            ),
            Err(e) => Err(e),
        }
    }
}

/// The fusion of content and text.
#[derive(Debug, Clone, Copy, PartialEq, Eq, Structural)]
pub struct MRTE {
    pub cross_attention: MultiHeadAttention,
    pub c_pre: Affine,
    pub text_pre: Affine,
    pub c_post: Affine,
}

/// The fusion under a prefix.
pub open spec fn fusion_of(w: WeightsView, prefix: Seq<char>) -> Result<MRTE, Seq<char>> {
    match fusion_attention_of(w, prefix + ".cross_attention"@) {
        Err(e) => Err(e),
        Ok(cross_attention) => match affine_of(w, prefix + ".c_pre"@) {
            Err(e) => Err(e),
            Ok(c_pre) => match affine_of(w, prefix + ".text_pre"@) {
                Err(e) => Err(e),
                Ok(text_pre) => match affine_of(w, prefix + ".c_post"@) {
                    Err(e) => Err(e),
                    Ok(c_post) => Ok(MRTE { cross_attention, c_pre, text_pre, c_post }),
                },
            },
        },
    }
}

/// The fusion of given sizes under a prefix, or the first name that is missing or has another
/// shape.
pub open spec fn sized_fusion_of(
    w: WeightsView,
    prefix: Seq<char>,
    content: usize,
    hidden: usize,
    out_channels: usize,
    n_heads: usize,
) -> Result<MRTE, Seq<char>> {
    match sized_attention_of(w, prefix + ".cross_attention"@, hidden, hidden, n_heads) {
        Err(e) => Err(e),
        Ok(cross_attention) => match pointwise_of(w, prefix + ".c_pre"@, content, hidden) {
            Err(e) => Err(e),
            Ok(c_pre) => match pointwise_of(w, prefix + ".text_pre"@, content, hidden) {
                Err(e) => Err(e),
                Ok(text_pre) => match pointwise_of(w, prefix + ".c_post"@, hidden, out_channels) {
                    Err(e) => Err(e),
                    Ok(c_post) => Ok(MRTE { cross_attention, c_pre, text_pre, c_post }),
                },
            },
        },
    }
}

impl MRTE {
    /// The fusion of given sizes under a prefix, or the first name that is missing or has another
    /// shape.
    pub fn new(
        content: usize,
        hidden: usize,
        out_channels: usize,
        n_heads: usize,
        w: &Weights,
        prefix: &str,
    ) -> (r: Result<Self, String>)
        requires
            n_heads > 0,
            hidden % n_heads == 0,
        ensures
            same_outcome(
                r,
                sized_fusion_of(w@, prefix@, content, hidden, out_channels, n_heads),
            ),
    {
        let cross_attention = match MultiHeadAttention::new(
            hidden,
            hidden,
            n_heads,
            w,
            under(prefix, ".cross_attention").as_str(),
        ) {
            Ok(a) => a,
            Err(e) => return Err(e),
        };
        let c_pre = match load_pointwise(w, under(prefix, ".c_pre").as_str(), content, hidden) {
            Ok(a) => a,
            Err(e) => return Err(e),
        };
        let text_pre = match load_pointwise(w, under(prefix, ".text_pre").as_str(), content, hidden) {
            Ok(a) => a,
            Err(e) => return Err(e),
        };
        match load_pointwise(w, under(prefix, ".c_post").as_str(), hidden, out_channels) {
            Ok(c_post) => Ok(MRTE { cross_attention, c_pre, text_pre, c_post }),
            Err(e) => Err(e),
        }
    }

    /// The fusion under a prefix, or the first name that is missing.
    pub fn load(w: &Weights, prefix: &str) -> (r: Result<Self, String>)
        ensures
            same_outcome(r, fusion_of(w@, prefix@)),
    {
        let cross_attention = match MultiHeadAttention::load(
            w,
            under(prefix, ".cross_attention").as_str(),
        ) {
            Ok(a) => a,
            Err(e) => return Err(e),
        };
        let c_pre = match load_affine(w, under(prefix, ".c_pre").as_str()) {
            Ok(a) => a,
            Err(e) => return Err(e),
        };
        let text_pre = match load_affine(w, under(prefix, ".text_pre").as_str()) {
            Ok(a) => a,
            Err(e) => return Err(e),
        };
        match load_affine(w, under(prefix, ".c_post").as_str()) {
            Ok(c_post) => Ok(MRTE { cross_attention, c_pre, text_pre, c_post }),
            Err(e) => Err(e),
        }
    }
}

} // verus!
